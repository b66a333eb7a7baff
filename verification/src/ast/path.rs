use vstd::prelude::*;

verus! {

/// A module path, as written in an `import`.
#[derive(Debug)]
pub struct Path {
    segments: Vec<String>,
}

impl Path {
    pub closed spec fn segments(&self) -> Seq<Seq<char>> {
        self.segments@.map_values(|s: String| s@)
    }

    pub fn new(segments: Vec<String>) -> (p: Self)
        ensures
            p.segments() == segments@.map_values(|s: String| s@),
    {
        Self { segments }
    }

    pub fn single(segment: String) -> (p: Self)
        ensures
            p.segments() == seq![segment@],
    {
        let mut v: Vec<String> = Vec::new();
        v.push(segment);
        let p = Self { segments: v };
        assert(p.segments() =~= seq![segment@]);
        p
    }
}

} // verus!
