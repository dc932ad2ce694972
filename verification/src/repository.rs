//! Which repository owns which record.

use vstd::prelude::*;

use crate::collections::StrMap;

verus! {

/// The owning repositories of records and the display names of repositories.
pub struct RepositoryIndex {
    owners: StrMap<String>,
    displays: StrMap<String>,
}

/// The repository of a record.
pub open spec fn owner(owners: Map<Seq<char>, Seq<char>>, id: Seq<char>) -> Option<Seq<char>> {
    if owners.dom().contains(id) {
        Some(owners[id])
    } else {
        None
    }
}

impl RepositoryIndex {
    #[verifier::type_invariant]
    spec fn inv(self) -> bool {
        self.owners.wf() && self.displays.wf()
    }

    /// The repository of each attributed record.
    pub closed spec fn owners(&self) -> Map<Seq<char>, Seq<char>> {
        self.owners.map().map_values(|s: String| s@)
    }

    /// The display name of each named repository.
    pub closed spec fn displays(&self) -> Map<Seq<char>, Seq<char>> {
        self.displays.map().map_values(|s: String| s@)
    }

    /// An index that attributes nothing.
    pub fn new() -> (r: RepositoryIndex)
        ensures
            r.owners() == Map::<Seq<char>, Seq<char>>::empty(),
            r.displays() == Map::<Seq<char>, Seq<char>>::empty(),
    {
        let r = RepositoryIndex { owners: StrMap::new(), displays: StrMap::new() };
        assert(r.owners() =~= Map::<Seq<char>, Seq<char>>::empty());
        assert(r.displays() =~= Map::<Seq<char>, Seq<char>>::empty());
        r
    }

    /// The index that also attributes the record to the repository.
    pub fn attribute(self, record_id: &str, repository_id: &str) -> (r: RepositoryIndex)
        ensures
            r.owners() == self.owners().insert(record_id@, repository_id@),
            r.displays() == self.displays(),
    {
        proof {
            use_type_invariant(&self);
        }
        let RepositoryIndex { mut owners, displays } = self;
        owners.insert(record_id, repository_id.to_owned());
        let r = RepositoryIndex { owners, displays };
        assert(r.owners() =~= self.owners().insert(record_id@, repository_id@));
        r
    }

    /// The index in which the repository also has a display name.
    pub fn name_repository(self, repository_id: &str, display: &str) -> (r: RepositoryIndex)
        ensures
            r.owners() == self.owners(),
            r.displays() == self.displays().insert(repository_id@, display@),
    {
        proof {
            use_type_invariant(&self);
        }
        let RepositoryIndex { owners, mut displays } = self;
        displays.insert(repository_id, display.to_owned());
        let r = RepositoryIndex { owners, displays };
        assert(r.displays() =~= self.displays().insert(repository_id@, display@));
        r
    }

    /// The repository of a record.
    pub fn owner_of(&self, id: &str) -> (r: Option<&str>)
        ensures
            crate::text::opt_str_view(r) == owner(self.owners(), id@),
    {
        proof {
            use_type_invariant(self);
        }
        match self.owners.get(id) {
            Some(s) => Some(s.as_str()),
            None => None,
        }
    }

    /// The display name of a repository.
    pub fn display_of(&self, repository_id: &str) -> (r: Option<&str>)
        ensures
            crate::text::opt_str_view(r) == owner(self.displays(), repository_id@),
    {
        proof {
            use_type_invariant(self);
        }
        match self.displays.get(repository_id) {
            Some(s) => Some(s.as_str()),
            None => None,
        }
    }
}

} // verus!
