//! Which files are what, by the letters of their names.
use vstd::prelude::*;
use crate::components::{in_order, list_components, named, needs_flat, Folder, Folders, Place};
use crate::files::{
    added_of, component_files, components_of, is_companion, is_component, is_listing, is_new_name,
    lemma_last_dot, lemma_listing_has_all, lemma_picks, listing, merge_components, parting, picks,
    preset_path, stage_companion_dlls, stage_label,
};
use crate::frame::texts;
use crate::text::{ascii_lower, ascii_lowered, text_le};

verus! {

/// Whether a name ends in a dot and these three letters, in small letters or in either.
pub open spec fn ends_in_dll(name: Seq<char>, any_case: bool) -> bool {
    let n = name.len();
    &&& n >= 4
    &&& name[n - 4] == '.'
    &&& name[n - 3] == 'd' || (any_case && name[n - 3] == 'D')
    &&& name[n - 2] == 'l' || (any_case && name[n - 2] == 'L')
    &&& name[n - 1] == 'l' || (any_case && name[n - 1] == 'L')
}

/// Whether a name starts with `foo_`, in any case.
pub open spec fn starts_with_foo_(name: Seq<char>) -> bool {
    &&& name.len() >= 4
    &&& name[0] == 'f' || name[0] == 'F'
    &&& name[1] == 'o' || name[1] == 'O'
    &&& name[2] == 'o' || name[2] == 'O'
    &&& name[3] == '_'
}

/// Whether a name is `shared.dll`, in any case.
pub open spec fn is_shared_dll(name: Seq<char>) -> bool {
    &&& name.len() == 10
    &&& ends_in_dll(name, true)
    &&& name[0] == 's' || name[0] == 'S'
    &&& name[1] == 'h' || name[1] == 'H'
    &&& name[2] == 'a' || name[2] == 'A'
    &&& name[3] == 'r' || name[3] == 'R'
    &&& name[4] == 'e' || name[4] == 'E'
    &&& name[5] == 'd' || name[5] == 'D'
}

/// Whether a file is a companion: a DLL that is no `foo_` component and not `shared.dll`.
pub open spec fn names_a_companion(name: Seq<char>) -> bool {
    &&& name.len() >= 5
    &&& ends_in_dll(name, true)
    &&& !starts_with_foo_(name)
    &&& !is_shared_dll(name)
}

/// Whether a file is a component: its name starts with `foo` and ends in `.dll`, in small letters.
pub open spec fn names_a_component(name: Seq<char>) -> bool {
    &&& name.len() >= 5
    &&& ends_in_dll(name, false)
    &&& name[0] == 'f' && name[1] == 'o' && name[2] == 'o'
}

/// Where a name is parted: it has a stem, a dot, and an extension without one.
pub open spec fn is_parted(name: Seq<char>, stem: Seq<char>, ext: Seq<char>) -> bool {
    &&& name == stem + seq!['.'] + ext
    &&& stem.len() > 0
    &&& !ext.contains('.')
    &&& name.len() > 2 || stem != seq!['.']
}

proof fn lemma_parted(name: Seq<char>, stem: Seq<char>, ext: Seq<char>)
    requires
        is_parted(name, stem, ext),
    ensures
        parting(name) == Some(stem.len() as int),
        name.skip(stem.len() as int + 1) == ext,
        name.take(stem.len() as int) == stem,
{
    let k = stem.len() as int;
    lemma_last_dot(name);
    assert(name[k] == '.');
    assert forall|j: int| k < j < name.len() implies name[j] != '.' by {
        assert(name[j] == ext[j - k - 1]);
    }
    assert(name.skip(k + 1) =~= ext);
    assert(name.take(k) =~= stem);
    if name == seq!['.', '.'] {
        assert(stem =~= seq!['.']);
    }
}

/// Whether a name is not parted: it has no dot, or none but its first character, or it is `..`.
pub open spec fn is_whole(name: Seq<char>) -> bool {
    ||| name == seq!['.', '.']
    ||| forall|i: int| 0 < i < name.len() ==> #[trigger] name[i] != '.'
}

proof fn lemma_not_parted(name: Seq<char>)
    requires
        is_whole(name),
    ensures
        parting(name) is None,
{
    lemma_last_dot(name);
}

proof fn lemma_lower(c: char)
    ensures
        ascii_lower(c) == 'd' <==> c == 'd' || c == 'D',
        ascii_lower(c) == 'l' <==> c == 'l' || c == 'L',
        ascii_lower(c) == 'f' <==> c == 'f' || c == 'F',
        ascii_lower(c) == 'o' <==> c == 'o' || c == 'O',
        ascii_lower(c) == '_' <==> c == '_',
        ascii_lower(c) == '.' <==> c == '.',
        ascii_lower(c) == 's' <==> c == 's' || c == 'S',
        ascii_lower(c) == 'h' <==> c == 'h' || c == 'H',
        ascii_lower(c) == 'a' <==> c == 'a' || c == 'A',
        ascii_lower(c) == 'r' <==> c == 'r' || c == 'R',
        ascii_lower(c) == 'e' <==> c == 'e' || c == 'E',
{
}

proof fn lemma_dll(name: Seq<char>, any_case: bool)
    ensures
        name.len() >= 5 && ends_in_dll(name, any_case) <==> (crate::files::extension_of(
            name,
        ) matches Some(ext) && (if any_case {
            ascii_lowered(ext) == "dll"@
        } else {
            ext == "dll"@
        })),
{
    reveal_strlit("dll");
    let n = name.len();
    if n >= 5 && ends_in_dll(name, any_case) {
        let stem = name.take(n - 4);
        let ext = name.skip(n - 3);
        assert forall|i: int| 0 <= i < ext.len() implies ext[i] != '.' by {
            assert(ext[i] == name[n - 3 + i]);
        }
        assert(name =~= stem + seq!['.'] + ext);
        lemma_parted(name, stem, ext);
        lemma_lower(ext[0]);
        lemma_lower(ext[1]);
        lemma_lower(ext[2]);
        if any_case {
            assert(ascii_lowered(ext) =~= "dll"@);
        } else {
            assert(ext =~= "dll"@);
        }
    }
    if let Some(k) = parting(name) {
        lemma_last_dot(name);
        let ext = name.skip(k + 1);
        if any_case && ascii_lowered(ext) == "dll"@ {
            let low = ascii_lowered(ext);
            assert(low.len() == 3);
            assert(low[0] == 'd' && low[1] == 'l' && low[2] == 'l');
            lemma_lower(ext[0]);
            lemma_lower(ext[1]);
            lemma_lower(ext[2]);
            assert(ext[0] == name[n - 3] && ext[1] == name[n - 2] && ext[2] == name[n - 1]);
        }
        if !any_case && ext == "dll"@ {
            assert(ext.len() == 3);
            assert(ext[0] == 'd' && ext[1] == 'l' && ext[2] == 'l');
            assert(ext[0] == name[n - 3] && ext[1] == name[n - 2] && ext[2] == name[n - 1]);
        }
    }
}

proof fn lemma_companion(name: Seq<char>)
    ensures
        is_companion(name) <==> names_a_companion(name),
{
    lemma_dll(name, true);
    reveal_strlit("foo_");
    reveal_strlit("shared.dll");
    let low = ascii_lowered(name);
    if name.len() >= 4 {
        lemma_lower(name[0]);
        lemma_lower(name[1]);
        lemma_lower(name[2]);
        lemma_lower(name[3]);
        let head = low.take(4);
        assert(head[0] == low[0] && head[1] == low[1] && head[2] == low[2] && head[3] == low[3]);
        if starts_with_foo_(name) {
            assert(head =~= "foo_"@);
        }
    }
    if name.len() == 10 {
        lemma_lower(name[4]);
        lemma_lower(name[5]);
        lemma_lower(name[6]);
        lemma_lower(name[7]);
        lemma_lower(name[8]);
        lemma_lower(name[9]);
        if is_shared_dll(name) {
            assert(low =~= "shared.dll"@);
        }
        if low == "shared.dll"@ {
            assert(low[0] == 's' && low[1] == 'h' && low[2] == 'a' && low[3] == 'r' && low[4] == 'e'
                && low[5] == 'd' && low[6] == '.' && low[7] == 'd' && low[8] == 'l' && low[9]
                == 'l');
        }
    }
}

proof fn lemma_component(name: Seq<char>)
    ensures
        is_component(name) <==> names_a_component(name),
{
    lemma_dll(name, false);
    reveal_strlit("foo");
    if name.len() >= 3 {
        let head = name.take(3);
        assert(head[0] == name[0] && head[1] == name[1] && head[2] == name[2]);
        if names_a_component(name) {
            assert(head =~= "foo"@);
        }
    }
}

/// Whether numbers come one after the other, each larger than the one before.
pub open spec fn increasing(numbers: Seq<usize>) -> bool {
    forall|i: int, j: int| 0 <= i < j < numbers.len() ==> numbers[i] < numbers[j]
}

proof fn lemma_all_picked(n: nat, wanted: spec_fn(int) -> bool)
    requires
        n <= usize::MAX,
    ensures
        increasing(picks(n, wanted)),
        forall|i: int|
            0 <= i < n ==> (wanted(i) <==> #[trigger] picks(n, wanted).contains(i as usize)),
    decreases n,
{
    if n > 0 {
        let m = (n - 1) as nat;
        lemma_all_picked(m, wanted);
        lemma_picks(m, wanted);
        lemma_picks(n, wanted);
        let all = picks(n, wanted);
        let fewer = picks(m, wanted);
        assert forall|i: int| 0 <= i < n implies (wanted(i) <==> #[trigger] all.contains(
            i as usize,
        )) by {
            if i < m {
                if wanted(i) {
                    let k = fewer.index_of(i as usize);
                    assert(fewer.contains(i as usize));
                    assert(all[k] == i as usize);
                }
                if all.contains(i as usize) {
                    let k = all.index_of(i as usize);
                    assert(wanted(all[k] as int));
                }
            } else {
                if wanted(i) {
                    assert(all[fewer.len() as int] == i as usize);
                }
                if all.contains(i as usize) {
                    let k = all.index_of(i as usize);
                    assert(wanted(all[k] as int));
                }
            }
        }
    }
}

/// The files that are copied beside the worker are exactly the companions, each once and in order.
pub proof fn law_companions_are_copied(names: &[String], copies: Vec<usize>)
    requires
        call_ensures(stage_companion_dlls, (names,), copies),
        names@.len() <= usize::MAX,
    ensures
        increasing(copies@),
        forall|k: int| 0 <= k < copies@.len() ==> #[trigger] copies@[k] < names@.len(),
        forall|i: int|
            0 <= i < names@.len() ==> (names_a_companion(names@[i]@)
                <==> #[trigger] copies@.contains(i as usize)),
{
    let wanted = |i: int| is_companion(names@[i]@);
    lemma_all_picked(names@.len(), wanted);
    lemma_picks(names@.len(), wanted);
    assert forall|i: int| 0 <= i < names@.len() implies (names_a_companion(names@[i]@)
        <==> #[trigger] copies@.contains(i as usize)) by {
        lemma_companion(names@[i]@);
        assert(wanted(i) == is_companion(names@[i]@));
    }
}

/// The components of a folder are found, each once and in order.
pub proof fn law_components_are_found(names: &[String], found: Vec<usize>)
    requires
        call_ensures(component_files, (names,), found),
        names@.len() <= usize::MAX,
    ensures
        increasing(found@),
        forall|k: int| 0 <= k < found@.len() ==> #[trigger] found@[k] < names@.len(),
        forall|i: int|
            0 <= i < names@.len() ==> (names_a_component(names@[i]@)
                <==> #[trigger] found@.contains(i as usize)),
{
    lemma_components(texts(names@));
    assert forall|i: int| 0 <= i < names@.len() implies (names_a_component(names@[i]@)
        <==> #[trigger] found@.contains(i as usize)) by {
        assert(texts(names@)[i] == names@[i]@);
    }
}

proof fn lemma_components(names: Seq<Seq<char>>)
    requires
        names.len() <= usize::MAX,
    ensures
        increasing(components_of(names)),
        forall|k: int|
            0 <= k < components_of(names).len() ==> (#[trigger] components_of(names)[k])
                < names.len(),
        forall|f: usize|
            f < names.len() ==> (names_a_component(names[f as int])
                <==> #[trigger] components_of(names).contains(f)),
{
    let wanted = |i: int| is_component(names[i]);
    lemma_all_picked(names.len(), wanted);
    lemma_picks(names.len(), wanted);
    assert forall|f: usize| f < names.len() implies (names_a_component(names[f as int])
        <==> #[trigger] components_of(names).contains(f)) by {
        let i = f as int;
        lemma_component(names[i]);
        assert(wanted(i) == is_component(names[i]));
        assert(i as usize == f);
        assert(wanted(i) <==> picks(names.len(), wanted).contains(i as usize));
    }
}

/// A 32-bit component is added exactly if no component that is there already has its name, each
/// once and in order.
pub proof fn law_new_names_are_added(x64: &[String], x86: &[String], added: Vec<usize>)
    requires
        call_ensures(merge_components, (x64, x86), added),
        x86@.len() <= usize::MAX,
    ensures
        increasing(added@),
        forall|k: int| 0 <= k < added@.len() ==> #[trigger] added@[k] < x86@.len(),
        forall|j: int|
            0 <= j < x86@.len() ==> (#[trigger] added@.contains(j as usize) <==> {
                &&& forall|k: int| 0 <= k < x64@.len() ==> (#[trigger] x64@[k])@ != x86@[j]@
                &&& forall|k: int| 0 <= k < j ==> (#[trigger] x86@[k])@ != x86@[j]@
            }),
{
    let (a, b) = (texts(x64@), texts(x86@));
    let wanted = |j: int| is_new_name(a, b, j);
    lemma_all_picked(b.len(), wanted);
    lemma_picks(b.len(), wanted);
    assert forall|j: int| 0 <= j < x86@.len() implies (#[trigger] added@.contains(j as usize) <==> {
        &&& forall|k: int| 0 <= k < x64@.len() ==> (#[trigger] x64@[k])@ != x86@[j]@
        &&& forall|k: int| 0 <= k < j ==> (#[trigger] x86@[k])@ != x86@[j]@
    }) by {
        assert(wanted(j) == is_new_name(a, b, j));
        assert(forall|k: int| 0 <= k < a.len() ==> a[k] == (#[trigger] x64@[k])@);
        assert(forall|k: int| 0 <= k < b.len() ==> b[k] == (#[trigger] x86@[k])@);
        if is_new_name(a, b, j) {
            assert forall|k: int| 0 <= k < x64@.len() implies (#[trigger] x64@[k])@ != x86@[j]@ by {
                assert(a[k] != b[j]);
            }
            assert forall|k: int| 0 <= k < j implies (#[trigger] x86@[k])@ != x86@[j]@ by {
                assert(b[k] != b[j]);
            }
        }
    }
}

/// A listing has every file once, by name, and files of one name as they came.
pub proof fn law_listing_is_by_name(names: &[String], order: Vec<usize>)
    requires
        call_ensures(listing, (names,), order),
    ensures
        order@.len() == names@.len(),
        forall|x: int| 0 <= x < names@.len() ==> #[trigger] order@.contains(x as usize),
        forall|i: int, j: int|
            0 <= i < j < order@.len() ==> {
                let a = names@[#[trigger] order@[i] as int]@;
                let b = names@[#[trigger] order@[j] as int]@;
                &&& text_le(a, b)
                &&& a == b ==> order@[i] < order@[j]
            },
{
    let all = texts(names@);
    assert forall|x: int| 0 <= x < names@.len() implies #[trigger] order@.contains(x as usize) by {
        lemma_listing_has_all(all, all.len() as int, order@, x);
    }
    assert forall|i: int, j: int| 0 <= i < j < order@.len() implies {
        let a = names@[#[trigger] order@[i] as int]@;
        let b = names@[#[trigger] order@[j] as int]@;
        &&& text_le(a, b)
        &&& a == b ==> order@[i] < order@[j]
    } by {
        assert(crate::files::listed_before(all, order@[i], order@[j]));
    }
}

/// A stage is called by its file name up to the last dot; a component's preset is kept under that
/// with `.preset` behind it.
pub proof fn law_stem_names(
    name: &str,
    stem: Seq<char>,
    ext: Seq<char>,
    label: String,
    file: String,
)
    requires
        call_ensures(stage_label, (Some(name),), label),
        call_ensures(preset_path, (Some(name),), file),
        is_parted(name@, stem, ext),
    ensures
        label@ == stem,
        file@ == stem + ".preset"@,
{
    lemma_parted(name@, stem, ext);
}

/// A name that is not parted stands for itself, and a path without a name for nothing.
pub proof fn law_whole_names(
    name: &str,
    label: String,
    file: String,
    no_label: String,
    no_file: String,
)
    requires
        call_ensures(stage_label, (Some(name),), label),
        call_ensures(preset_path, (Some(name),), file),
        call_ensures(stage_label, (None::<&str>,), no_label),
        call_ensures(preset_path, (None::<&str>,), no_file),
        is_whole(name@),
    ensures
        label@ == name@,
        file@ == name@ + ".preset"@,
        no_label@ == ""@,
        no_file@ == "dsp.preset"@,
{
    lemma_not_parted(name@);
    reveal_strlit("dsp");
    reveal_strlit(".preset");
    reveal_strlit("dsp.preset");
    assert("dsp"@ + ".preset"@ =~= "dsp.preset"@);
}

/// The one folder is looked through exactly if no file of the other two is a component.
pub proof fn law_flat_folder(x64: &[String], x86: &[String], yes: bool)
    requires
        call_ensures(needs_flat, (x64, x86), yes),
        x64@.len() <= usize::MAX,
        x86@.len() <= usize::MAX,
    ensures
        yes <==> {
            &&& forall|i: int| 0 <= i < x64@.len() ==> !names_a_component((#[trigger] x64@[i])@)
            &&& forall|i: int| 0 <= i < x86@.len() ==> !names_a_component((#[trigger] x86@[i])@)
        },
{
    lemma_none(x64@);
    lemma_none(x86@);
}

proof fn lemma_none(names: Seq<String>)
    requires
        names.len() <= usize::MAX,
    ensures
        components_of(texts(names)).len() == 0 <==> forall|i: int|
            0 <= i < names.len() ==> !names_a_component((#[trigger] names[i])@),
{
    let all = texts(names);
    let found = components_of(all);
    lemma_components(all);
    if found.len() == 0 {
        assert forall|i: int| 0 <= i < names.len() implies !names_a_component(
            (#[trigger] names[i])@,
        ) by {
            assert(all[i] == names[i]@);
            assert(!found.contains(i as usize));
        }
    } else {
        let i = found[0] as int;
        assert(found.contains(i as usize));
        assert(all[i] == names[i]@);
        assert(names_a_component(names[i]@));
    }
}

/// The name of the file at a place.
pub open spec fn name_at(
    x64: Seq<String>,
    x86: Seq<String>,
    flat: Seq<String>,
    place: Place,
) -> Seq<char> {
    match place.folder {
        Folder::X64 => x64[place.file as int]@,
        Folder::X86 => x86[place.file as int]@,
        Folder::Flat => flat[place.file as int]@,
    }
}

/// Whether a folder has a component of this name among its first `n` files.
pub open spec fn has_component(names: Seq<String>, n: int, name: Seq<char>) -> bool {
    exists|k: int| 0 <= k < n && (#[trigger] names[k])@ == name && names_a_component(name)
}

/// Whether a folder has a component.
pub open spec fn has_any(names: Seq<String>) -> bool {
    exists|k: int| 0 <= k < names.len() && names_a_component((#[trigger] names[k])@)
}

/// Whether the file at a place is to be listed: every 64-bit component, each 32-bit component of a
/// name that is not there already, and those of the one folder only where neither has any.
pub open spec fn to_be_listed(
    x64: Seq<String>,
    x86: Seq<String>,
    flat: Seq<String>,
    place: Place,
) -> bool {
    let f = place.file as int;
    match place.folder {
        Folder::X64 => f < x64.len() && names_a_component(x64[f]@),
        Folder::X86 => f < x86.len() && names_a_component(x86[f]@) && !has_component(
            x64,
            x64.len() as int,
            x86[f]@,
        ) && !has_component(x86, f, x86[f]@),
        Folder::Flat => f < flat.len() && names_a_component(flat[f]@) && !has_any(x64) && !has_any(
            x86,
        ),
    }
}

proof fn lemma_found_x86(x64: Seq<String>, x86: Seq<String>, f: usize)
    requires
        x64.len() <= usize::MAX,
        x86.len() <= usize::MAX,
    ensures
        ({
            let (a, b) = (texts(x64), texts(x86));
            let (c64, c86) = (components_of(a), components_of(b));
            let added = added_of(named(a, c64), named(b, c86));
            let place = Place { folder: Folder::X86, file: f };
            &&& increasing(added)
            &&& forall|k: int| 0 <= k < added.len() ==> #[trigger] added[k] < c86.len()
            &&& (exists|k: int|
                0 <= k < added.len() && c86[#[trigger] added[k] as int] == f) <==> to_be_listed(
                x64,
                x86,
                seq![],
                place,
            )
        }),
{
    let (a, b) = (texts(x64), texts(x86));
    let (c64, c86) = (components_of(a), components_of(b));
    let (na, nb) = (named(a, c64), named(b, c86));
    let added = added_of(na, nb);
    let place = Place { folder: Folder::X86, file: f };
    let wanted = |j: int| is_new_name(na, nb, j);
    lemma_components(a);
    lemma_components(b);
    lemma_picks(b.len(), |i: int| is_component(b[i]));
    lemma_all_picked(nb.len(), wanted);
    lemma_picks(nb.len(), wanted);
    assert forall|k: int| 0 <= k < added.len() && c86[#[trigger] added[k] as int] == f implies
        to_be_listed(x64, x86, seq![], place) by {
        let j = added[k] as int;
        assert(wanted(j));
        assert(is_new_name(na, nb, j));
        assert(c86.contains(c86[j]));
        assert(b[f as int] == x86[f as int]@ && nb[j] == b[f as int]);
        let name = x86[f as int]@;
        if has_component(x64, x64.len() as int, name) {
            let i = choose|i: int| 0 <= i < x64.len() && (#[trigger] x64[i])@ == name;
            assert(a[i] == x64[i]@);
            assert(c64.contains(i as usize));
            let m = c64.index_of(i as usize);
            assert(na[m] == nb[j]);
        }
        if has_component(x86, f as int, name) {
            let i = choose|i: int| 0 <= i < f && (#[trigger] x86[i])@ == name;
            assert(b[i] == x86[i]@);
            assert(c86.contains(i as usize));
            let m = c86.index_of(i as usize);
            assert(m < j) by {
                if m > j {
                    assert(c86[j] < c86[m]);
                }
            }
            assert(nb[m] == nb[j]);
        }
    }
    if to_be_listed(x64, x86, seq![], place) {
        assert(b[f as int] == x86[f as int]@);
        assert(c86.contains(f));
        let j = c86.index_of(f);
        let name = x86[f as int]@;
        assert(nb[j] == name);
        assert forall|k: int| 0 <= k < na.len() implies na[k] != nb[j] by {
            assert(c64.contains(c64[k]));
            assert(a[c64[k] as int] == x64[c64[k] as int]@);
            if na[k] == nb[j] {
                assert(x64[c64[k] as int]@ == name);
            }
        }
        assert forall|k: int| 0 <= k < j implies nb[k] != nb[j] by {
            assert(c86[k] < c86[j]);
            assert(c86.contains(c86[k]));
            assert(b[c86[k] as int] == x86[c86[k] as int]@);
            if nb[k] == nb[j] {
                assert(x86[c86[k] as int]@ == name);
            }
        }
        assert(wanted(j));
        assert(added.contains(j as usize));
        let k = added.index_of(j as usize);
        assert(c86[added[k] as int] == f);
    }
}

proof fn lemma_found(x64: Seq<String>, x86: Seq<String>, flat: Seq<String>)
    requires
        x64.len() <= usize::MAX,
        x86.len() <= usize::MAX,
        flat.len() <= usize::MAX,
    ensures
        ({
            let folders = Folders { x64: texts(x64), x86: texts(x86), flat: texts(flat) };
            let found = folders.found();
            &&& found.no_duplicates()
            &&& forall|place: Place|
                found.contains(place) <==> #[trigger] to_be_listed(x64, x86, flat, place)
        }),
{
    let folders = Folders { x64: texts(x64), x86: texts(x86), flat: texts(flat) };
    let found = folders.found();
    let c64 = components_of(folders.x64);
    let c86 = components_of(folders.x86);
    let cf = components_of(folders.flat);
    lemma_components(folders.x64);
    lemma_components(folders.x86);
    lemma_components(folders.flat);
    lemma_none(x64);
    lemma_none(x86);
    assert(has_any(x64) <==> c64.len() > 0);
    assert(has_any(x86) <==> c86.len() > 0);
    let added = added_of(named(folders.x64, c64), named(folders.x86, c86));
    lemma_found_x86(x64, x86, 0);
    let n64 = c64.len() as int;
    assert forall|place: Place| found.contains(place) <==> #[trigger] to_be_listed(
        x64,
        x86,
        flat,
        place,
    ) by {
        let f = place.file;
        lemma_found_x86(x64, x86, f);
        assert(f < x64.len() ==> folders.x64[f as int] == x64[f as int]@);
        assert(f < x86.len() ==> folders.x86[f as int] == x86[f as int]@);
        assert(f < flat.len() ==> folders.flat[f as int] == flat[f as int]@);
        if found.contains(place) {
            let k = found.index_of(place);
            if folders.is_flat() {
                assert(cf.contains(cf[k]));
            } else if k < n64 {
                assert(c64.contains(c64[k]));
            } else {
                assert(c86[added[k - n64] as int] == f);
                assert(to_be_listed(x64, x86, seq![], place));
            }
        }
        if to_be_listed(x64, x86, flat, place) {
            match place.folder {
                Folder::Flat => {
                    assert(cf.contains(f));
                    let k = cf.index_of(f);
                    assert(found[k] == place);
                },
                Folder::X64 => {
                    assert(c64.contains(f));
                    let k = c64.index_of(f);
                    assert(found[k] == place);
                },
                Folder::X86 => {
                    assert(to_be_listed(x64, x86, seq![], place));
                    assert(c86.contains(f));
                    let k = choose|k: int|
                        0 <= k < added.len() && c86[#[trigger] added[k] as int] == f;
                    assert(found[n64 + k] == place);
                },
            }
        }
    }
    assert forall|i: int, j: int| 0 <= i < found.len() && 0 <= j < found.len() && i != j implies
        found[i] != found[j] by {
        let (p, q) = if i < j {
            (i, j)
        } else {
            (j, i)
        };
        if folders.is_flat() {
            assert(cf[p] < cf[q]);
        } else if q < n64 {
            assert(c64[p] < c64[q]);
        } else if p >= n64 {
            assert(added[p - n64] < added[q - n64]);
            assert(c86[added[p - n64] as int] < c86[added[q - n64] as int]);
        }
    }
}

/// The list has exactly the files that are to be listed, each once, by name.
pub proof fn law_list_of_components(
    x64: &[String],
    x86: &[String],
    flat: &[String],
    list: Vec<Place>,
)
    requires
        call_ensures(list_components, (x64, x86, flat), list),
        x64@.len() <= usize::MAX,
        x86@.len() <= usize::MAX,
        flat@.len() <= usize::MAX,
    ensures
        forall|place: Place|
            list@.contains(place) <==> #[trigger] to_be_listed(x64@, x86@, flat@, place),
        forall|i: int, j: int|
            0 <= i < j < list@.len() ==> {
                &&& #[trigger] list@[i] != #[trigger] list@[j]
                &&& text_le(
                    name_at(x64@, x86@, flat@, list@[i]),
                    name_at(x64@, x86@, flat@, list@[j]),
                )
            },
{
    let folders = Folders { x64: texts(x64@), x86: texts(x86@), flat: texts(flat@) };
    let found = folders.found();
    let names = folders.found_names();
    let n = found.len() as int;
    let order = choose|order: Seq<usize>|
        #[trigger] is_listing(names, n, order) && list@ == in_order(found, order);
    assert(is_listing(names, n, order) && list@ == in_order(found, order));
    lemma_found(x64@, x86@, flat@);
    assert forall|place: Place| list@.contains(place) <==> #[trigger] to_be_listed(
        x64@,
        x86@,
        flat@,
        place,
    ) by {
        if list@.contains(place) {
            let k = list@.index_of(place);
            assert(order[k] < n);
            assert(found[order[k] as int] == place);
        }
        if found.contains(place) {
            let i = found.index_of(place);
            lemma_listing_has_all(names, n, order, i);
            let k = choose|k: int| 0 <= k < order.len() && #[trigger] order[k] == i;
            assert(list@[k] == place);
        }
    }
    assert forall|i: int, j: int| 0 <= i < j < list@.len() implies {
        &&& #[trigger] list@[i] != #[trigger] list@[j]
        &&& text_le(name_at(x64@, x86@, flat@, list@[i]), name_at(x64@, x86@, flat@, list@[j]))
    } by {
        assert(order[i] < n && order[j] < n && order[i] != order[j]);
        assert(crate::files::listed_before(names, order[i], order[j]));
        let (p, q) = (list@[i], list@[j]);
        assert(found.contains(p) && found.contains(q)) by {
            assert(found[order[i] as int] == p && found[order[j] as int] == q);
        }
        assert(to_be_listed(x64@, x86@, flat@, p) && to_be_listed(x64@, x86@, flat@, q));
        assert(names[order[i] as int] == folders.name(p) && names[order[j] as int] == folders.name(
            q,
        ));
    }
}

} // verus!
