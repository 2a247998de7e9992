//! Places where a file may lie, and the choice of the first one that is there.
use crate::text;
use vstd::prelude::*;
use vstd::string::*;

verus! {

/// Where a place starts.
#[derive(Clone, Copy, Debug, PartialEq, Eq, Structural)]
pub enum Root {
    /// Nowhere: the place is a path of its own.
    Bare,
    /// The directory that the user has named.
    Explicit,
    /// The directory for the data of the user.
    LocalAppData,
    /// The directory that all users share.
    Public,
    /// The directory for the data of the machine.
    ProgramData,
    /// The directory for the programs of the machine.
    ProgramFiles,
    /// The directory of the running program.
    ExeDir,
    /// The directory that the program was started in.
    WorkDir,
    /// The directory of the speech files.
    TtsDir,
    /// An installed version of an engine.
    Installed(usize),
}

/// A place: a root, and the names that lead on from it.
#[derive(Debug)]
pub struct Place {
    pub root: Root,
    pub steps: Vec<String>,
}

/// The model of a place.
pub struct PlaceView {
    pub root: Root,
    pub steps: Seq<Seq<char>>,
}

impl View for Place {
    type V = PlaceView;

    open spec fn view(&self) -> PlaceView {
        PlaceView { root: self.root, steps: text::texts(self.steps@) }
    }
}

impl Place {
    /// A place of its own with the same root and steps.
    pub fn duplicate(&self) -> (r: Place)
        ensures
            r@ == self@,
    {
        Place { root: self.root, steps: text::copy_all(&self.steps) }
    }
}

/// The models of a row of places.
pub open spec fn places(v: Seq<Place>) -> Seq<PlaceView> {
    v.map_values(|p: Place| p@)
}

/// The place itself, without a step.
pub fn place0(root: Root) -> (r: Place)
    ensures
        r@ == (PlaceView { root, steps: seq![] }),
{
    let steps: Vec<String> = Vec::new();
    assert(text::texts(steps@) =~= seq![]);
    Place { root, steps }
}

/// The place one step from a root.
pub fn place1(root: Root, a: &str) -> (r: Place)
    ensures
        r@ == (PlaceView { root, steps: seq![a@] }),
{
    let mut steps: Vec<String> = Vec::new();
    steps.push(text::owned(a));
    assert(text::texts(steps@) =~= seq![a@]);
    Place { root, steps }
}

/// The place two steps from a root.
pub fn place2(root: Root, a: &str, b: &str) -> (r: Place)
    ensures
        r@ == (PlaceView { root, steps: seq![a@, b@] }),
{
    let mut steps: Vec<String> = Vec::new();
    steps.push(text::owned(a));
    steps.push(text::owned(b));
    assert(text::texts(steps@) =~= seq![a@, b@]);
    Place { root, steps }
}

/// The place three steps from a root.
pub fn place3(root: Root, a: &str, b: &str, c: &str) -> (r: Place)
    ensures
        r@ == (PlaceView { root, steps: seq![a@, b@, c@] }),
{
    let mut steps: Vec<String> = Vec::new();
    steps.push(text::owned(a));
    steps.push(text::owned(b));
    steps.push(text::owned(c));
    assert(text::texts(steps@) =~= seq![a@, b@, c@]);
    Place { root, steps }
}

/// Adds a place to a row.
pub fn add_place(row: &mut Vec<Place>, p: Place)
    ensures
        places(final(row)@) == places(old(row)@).push(p@),
{
    row.push(p);
    assert(places(row@) =~= places(old(row)@).push(p@));
}

/// Which one of a row is the first that is there.
pub open spec fn is_first(present: Seq<bool>, i: int) -> bool {
    &&& 0 <= i < present.len()
    &&& present[i]
    &&& forall|j: int| 0 <= j < i ==> !present[j]
}

/// Which one of a row is the first that is there.
pub fn first_present(present: &Vec<bool>) -> (r: Option<usize>)
    ensures
        match r {
            Some(i) => is_first(present@, i as int),
            None => forall|j: int| 0 <= j < present@.len() ==> !present@[j],
        },
{
    let mut i: usize = 0;
    while i < present.len()
        invariant
            i <= present@.len(),
            forall|j: int| 0 <= j < i ==> !present@[j],
        decreases present@.len() - i,
    {
        if present[i] {
            return Some(i);
        }
        i = i + 1;
    }
    None
}

/// At most one of a row is the first that is there.
pub proof fn first_is_unique(present: Seq<bool>, i: int, j: int)
    requires
        is_first(present, i),
        is_first(present, j),
    ensures
        i == j,
{
    if i < j {
        assert(!present[i]);
    }
    if j < i {
        assert(!present[j]);
    }
}

/// The first of a row is found behind any number that are not there, whatever follows it.
pub proof fn the_first_is_found(a: Seq<bool>, b: Seq<bool>, i: int)
    requires
        forall|j: int| 0 <= j < a.len() ==> !a[j],
    ensures
        is_first(a + seq![true] + b, i) <==> i == a.len(),
        !is_first(a, i),
{
    let row = a + seq![true] + b;
    let n = a.len() as int;
    assert(row[n]);
    assert forall|j: int| 0 <= j < n implies !row[j] by {
        assert(row[j] == a[j]);
    }
    assert(is_first(row, n));
    if is_first(row, i) {
        first_is_unique(row, i, n);
    }
}

} // verus!
