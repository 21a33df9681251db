//! Where the components are: in a folder for each architecture, or all in one folder.
use vstd::prelude::*;
use crate::files::{
    added_of, component_files, components_of, is_component, is_listing, is_new_name, lemma_picks,
    listing, merge_components,
};
use crate::frame::texts;

verus! {

/// A folder that components may lie in.
#[derive(Debug, Clone, Copy, PartialEq, Eq, Structural)]
pub enum Folder {
    X64,
    X86,
    /// The folder around the other two.
    Flat,
}

/// A file: its folder, and its number among the folder's files.
#[derive(Debug, Clone, Copy, PartialEq, Eq, Structural)]
pub struct Place {
    pub folder: Folder,
    pub file: usize,
}

/// The files of the three folders, by name.
pub struct Folders {
    pub x64: Seq<Seq<char>>,
    pub x86: Seq<Seq<char>>,
    pub flat: Seq<Seq<char>>,
}

impl Folders {
    /// The name of the file at a place.
    pub open spec fn name(self, place: Place) -> Seq<char> {
        match place.folder {
            Folder::X64 => self.x64[place.file as int],
            Folder::X86 => self.x86[place.file as int],
            Folder::Flat => self.flat[place.file as int],
        }
    }

    /// Whether neither architecture has a component in its folder, so that they all lie in one.
    pub open spec fn is_flat(self) -> bool {
        components_of(self.x64).len() == 0 && components_of(self.x86).len() == 0
    }

    /// The components, as they are found: the 64-bit ones, then the 32-bit ones of other names; or
    /// those of the one folder.
    pub open spec fn found(self) -> Seq<Place> {
        if self.is_flat() {
            places(Folder::Flat, components_of(self.flat))
        } else {
            let x64 = components_of(self.x64);
            let x86 = components_of(self.x86);
            let added = added_of(named(self.x64, x64), named(self.x86, x86));
            places(Folder::X64, x64) + places(
                Folder::X86,
                Seq::new(added.len(), |k: int| x86[added[k] as int]),
            )
        }
    }

    /// The names of the components, as they are found.
    pub open spec fn found_names(self) -> Seq<Seq<char>> {
        Seq::new(self.found().len(), |k: int| self.name(self.found()[k]))
    }
}

/// Files of one folder.
pub open spec fn places(folder: Folder, files: Seq<usize>) -> Seq<Place> {
    Seq::new(files.len(), |k: int| Place { folder, file: files[k] })
}

/// The names of some files of a folder.
pub open spec fn named(names: Seq<Seq<char>>, files: Seq<usize>) -> Seq<Seq<char>> {
    Seq::new(files.len(), |k: int| names[files[k] as int])
}

/// Things in another order.
pub open spec fn in_order<T>(things: Seq<T>, order: Seq<usize>) -> Seq<T> {
    Seq::new(order.len(), |k: int| things[order[k] as int])
}

fn pick_names(names: &[String], files: &[usize]) -> (picked: Vec<String>)
    requires
        forall|k: int| 0 <= k < files@.len() ==> #[trigger] files@[k] < names@.len(),
    ensures
        texts(picked@) == named(texts(names@), files@),
        picked@.len() == files@.len(),
{
    let mut picked: Vec<String> = Vec::new();
    let mut k: usize = 0;
    while k < files.len()
        invariant
            k <= files@.len(),
            forall|k: int| 0 <= k < files@.len() ==> #[trigger] files@[k] < names@.len(),
            picked@.len() == k,
            forall|m: int|
                0 <= m < k ==> (#[trigger] picked@[m])@ == names@[files@[m] as int]@,
        decreases files@.len() - k,
    {
        picked.push(names[files[k]].clone());
        k += 1;
    }
    assert(texts(picked@) =~= named(texts(names@), files@));
    picked
}

fn append_places(out: &mut Vec<Place>, folder: Folder, files: &[usize])
    ensures
        final(out)@ == old(out)@ + places(folder, files@),
{
    let mut k: usize = 0;
    while k < files.len()
        invariant
            k <= files@.len(),
            out@ == old(out)@ + places(folder, files@).take(k as int),
        decreases files@.len() - k,
    {
        out.push(Place { folder, file: files[k] });
        assert(out@ =~= old(out)@ + places(folder, files@).take(k + 1));
        k += 1;
    }
    assert(places(folder, files@).take(k as int) =~= places(folder, files@));
}

/// Whether the one folder is to be looked through: only if neither architecture's folder has a
/// component.
pub fn needs_flat(x64: &[String], x86: &[String]) -> (yes: bool)
    ensures
        yes == (components_of(texts(x64@)).len() == 0 && components_of(texts(x86@)).len() == 0),
{
    component_files(x64).len() == 0 && component_files(x86).len() == 0
}

fn find_by_arch(x64: &[String], x86: &[String], flat: Ghost<Seq<Seq<char>>>) -> (r: (
    Vec<Place>,
    Vec<String>,
))
    requires
        !(Folders { x64: texts(x64@), x86: texts(x86@), flat: flat@ }).is_flat(),
    ensures
        ({
            let folders = Folders { x64: texts(x64@), x86: texts(x86@), flat: flat@ };
            r.0@ == folders.found() && texts(r.1@) == folders.found_names() && r.1@.len()
                == r.0@.len()
        }),
{
    let ghost folders = Folders { x64: texts(x64@), x86: texts(x86@), flat: flat@ };
    let n64: usize = x64.len();
    let n86: usize = x86.len();
    let c64: Vec<usize> = component_files(x64);
    let c86: Vec<usize> = component_files(x86);
    proof {
        lemma_picks(n64 as nat, |i: int| is_component(folders.x64[i]));
        lemma_picks(n86 as nat, |i: int| is_component(folders.x86[i]));
    }
    let mut names: Vec<String> = pick_names(x64, c64.as_slice());
    let names86: Vec<String> = pick_names(x86, c86.as_slice());
    let added: Vec<usize> = merge_components(names.as_slice(), names86.as_slice());
    let ghost first = texts(names@);
    proof {
        lemma_picks(
            names86@.len(),
            |j: int| is_new_name(texts(names@), texts(names86@), j),
        );
    }
    let mut others: Vec<usize> = Vec::new();
    let mut k: usize = 0;
    while k < added.len()
        invariant
            k <= added@.len(),
            forall|m: int| 0 <= m < added@.len() ==> #[trigger] added@[m] < c86@.len(),
            names86@.len() == c86@.len(),
            texts(names86@) == named(texts(x86@), c86@),
            others@.len() == k,
            names@.len() == c64@.len() + k,
            forall|m: int| 0 <= m < k ==> #[trigger] others@[m] == c86@[added@[m] as int],
            forall|m: int| 0 <= m < c64@.len() ==> (#[trigger] names@[m])@ == first[m],
            forall|m: int|
                c64@.len() <= m < names@.len() ==> (#[trigger] names@[m])@
                    == texts(x86@)[others@[m - c64@.len()] as int],
        decreases added@.len() - k,
    {
        let j: usize = added[k];
        assert(texts(names86@)[j as int] == names86@[j as int]@);
        names.push(names86[j].clone());
        others.push(c86[j]);
        k += 1;
    }
    assert(others@ =~= Seq::new(added@.len(), |k: int| c86@[added@[k] as int]));
    let mut found: Vec<Place> = Vec::new();
    append_places(&mut found, Folder::X64, c64.as_slice());
    append_places(&mut found, Folder::X86, others.as_slice());
    assert(found@ =~= folders.found());
    assert(texts(names@) =~= folders.found_names());
    (found, names)
}

/// The components of the three folders, in the order in which they are listed: by file name.
pub fn list_components(x64: &[String], x86: &[String], flat: &[String]) -> (list: Vec<Place>)
    ensures
        ({
            let folders = Folders { x64: texts(x64@), x86: texts(x86@), flat: texts(flat@) };
            exists|order: Seq<usize>|
                #[trigger] is_listing(
                    folders.found_names(),
                    folders.found().len() as int,
                    order,
                ) && list@ == in_order(folders.found(), order)
        }),
{
    let ghost folders = Folders { x64: texts(x64@), x86: texts(x86@), flat: texts(flat@) };
    let (found, names): (Vec<Place>, Vec<String>) = if needs_flat(x64, x86) {
        let n: usize = flat.len();
        let files: Vec<usize> = component_files(flat);
        proof {
            lemma_picks(n as nat, |i: int| is_component(folders.flat[i]));
        }
        let mut found: Vec<Place> = Vec::new();
        append_places(&mut found, Folder::Flat, files.as_slice());
        let names: Vec<String> = pick_names(flat, files.as_slice());
        assert(found@ =~= folders.found());
        assert(texts(names@) =~= folders.found_names());
        (found, names)
    } else {
        find_by_arch(x64, x86, Ghost(folders.flat))
    };
    let order: Vec<usize> = listing(names.as_slice());
    let mut list: Vec<Place> = Vec::new();
    let mut k: usize = 0;
    while k < order.len()
        invariant
            k <= order@.len(),
            forall|m: int| 0 <= m < order@.len() ==> #[trigger] order@[m] < found@.len(),
            list@ == in_order(found@, order@).take(k as int),
        decreases order@.len() - k,
    {
        list.push(found[order[k]]);
        assert(list@ =~= in_order(found@, order@).take(k + 1));
        k += 1;
    }
    assert(list@ =~= in_order(found@, order@));
    list
}

/// Every listed file is a component, and is in its folder.
pub proof fn law_components_are_listed(folders: Folders, k: int)
    requires
        folders.x64.len() <= usize::MAX,
        folders.x86.len() <= usize::MAX,
        folders.flat.len() <= usize::MAX,
        0 <= k < folders.found().len(),
    ensures
        is_component(folders.name(folders.found()[k])),
        match folders.found()[k].folder {
            Folder::X64 => folders.found()[k].file < folders.x64.len(),
            Folder::X86 => folders.found()[k].file < folders.x86.len(),
            Folder::Flat => folders.found()[k].file < folders.flat.len(),
        },
        folders.found()[k].folder == Folder::Flat <==> folders.is_flat(),
{
    lemma_picks(folders.x64.len(), |i: int| is_component(folders.x64[i]));
    lemma_picks(folders.x86.len(), |i: int| is_component(folders.x86[i]));
    lemma_picks(folders.flat.len(), |i: int| is_component(folders.flat[i]));
    let x64 = named(folders.x64, components_of(folders.x64));
    let x86 = named(folders.x86, components_of(folders.x86));
    lemma_picks(x86.len(), |j: int| is_new_name(x64, x86, j));
}

} // verus!
