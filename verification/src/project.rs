//! The closed registry of tracked projects.
//!
//! The set of project identifiers is fixed at build time; an identifier
//! that is not in the set is rejected when the request is parsed, so the
//! metadata lookups here have no error path.

use vstd::prelude::*;

verus! {

/// One of the fixed set of tracked projects.
#[derive(Clone, Copy, PartialEq, Eq, Structural, Debug)]
pub enum Project {
    Dwall,
    Lsar,
    UP2B,
    Fluxy,
}

impl Project {
    /// A fixed position of each project in the registry, used as the
    /// deterministic tie-breaker when stats rows share a visit total.
    pub open spec fn index_spec(self) -> int {
        match self {
            Project::Dwall => 0,
            Project::Lsar => 1,
            Project::UP2B => 2,
            Project::Fluxy => 3,
        }
    }

    /// The registry position of this project.
    pub fn index(&self) -> (r: usize)
        ensures
            r == self.index_spec(),
    {
        match self {
            Project::Dwall => 0,
            Project::Lsar => 1,
            Project::UP2B => 2,
            Project::Fluxy => 3,
        }
    }

    /// The repository URL of this project.
    pub fn repository(&self) -> (r: &'static str)
        ensures
            r@ == self.repository_spec(),
    {
        match self {
            Project::Dwall => "https://github.com/dwall-rs/dwall",
            Project::Lsar => "https://github.com/alley-rs/lsar",
            Project::UP2B => "https://github.com/up2b/up2b",
            Project::Fluxy => "https://github.com/alley-rs/fluxy",
        }
    }

    pub open spec fn repository_spec(self) -> Seq<char> {
        match self {
            Project::Dwall => "https://github.com/dwall-rs/dwall"@,
            Project::Lsar => "https://github.com/alley-rs/lsar"@,
            Project::UP2B => "https://github.com/up2b/up2b"@,
            Project::Fluxy => "https://github.com/alley-rs/fluxy"@,
        }
    }

    /// The icon URL of this project.
    pub fn icon(&self) -> (r: &'static str)
        ensures
            r@ == self.icon_spec(),
    {
        match self {
            Project::Dwall => "https://raw.githubusercontent.com/dwall-rs/dwall/refs/heads/main/src-tauri/icons/icon.ico",
            Project::Lsar => "https://raw.githubusercontent.com/alley-rs/lsar/refs/heads/main/src-tauri/icons/icon.ico",
            Project::UP2B => "https://raw.githubusercontent.com/up2b/up2b/refs/heads/main/src-tauri/icons/icon.ico",
            Project::Fluxy => "https://raw.githubusercontent.com/alley-rs/fluxy/refs/heads/main/src-tauri/icons/icon.ico",
        }
    }

    pub open spec fn icon_spec(self) -> Seq<char> {
        match self {
            Project::Dwall => "https://raw.githubusercontent.com/dwall-rs/dwall/refs/heads/main/src-tauri/icons/icon.ico"@,
            Project::Lsar => "https://raw.githubusercontent.com/alley-rs/lsar/refs/heads/main/src-tauri/icons/icon.ico"@,
            Project::UP2B => "https://raw.githubusercontent.com/up2b/up2b/refs/heads/main/src-tauri/icons/icon.ico"@,
            Project::Fluxy => "https://raw.githubusercontent.com/alley-rs/fluxy/refs/heads/main/src-tauri/icons/icon.ico"@,
        }
    }

    /// A short human description of this project.
    pub fn description(&self) -> (r: &'static str)
        ensures
            r@ == self.description_spec(),
    {
        match self {
            Project::Dwall => "A program that schedules wallpaper changes on Windows by time of day",
            Project::Lsar => "A live-stream URL resolver that aggregates several platforms",
            Project::UP2B => "An image-hosting manager that supports several image beds",
            Project::Fluxy => "A light and fast file transfer tool",
        }
    }

    pub open spec fn description_spec(self) -> Seq<char> {
        match self {
            Project::Dwall => "A program that schedules wallpaper changes on Windows by time of day"@,
            Project::Lsar => "A live-stream URL resolver that aggregates several platforms"@,
            Project::UP2B => "An image-hosting manager that supports several image beds"@,
            Project::Fluxy => "A light and fast file transfer tool"@,
        }
    }

    /// The lower-case route name of this project, as it appears in request
    /// paths and serialized stats rows.
    pub fn name(&self) -> (r: &'static str)
        ensures
            r@ == self.name_spec(),
    {
        match self {
            Project::Dwall => "dwall",
            Project::Lsar => "lsar",
            Project::UP2B => "up2b",
            Project::Fluxy => "fluxy",
        }
    }

    pub open spec fn name_spec(self) -> Seq<char> {
        match self {
            Project::Dwall => "dwall"@,
            Project::Lsar => "lsar"@,
            Project::UP2B => "up2b"@,
            Project::Fluxy => "fluxy"@,
        }
    }
}

/// How many projects the registry holds.
pub open spec fn project_count() -> int {
    4
}

/// The registry in its fixed order.
pub fn all_projects() -> (r: Vec<Project>)
    ensures
        r@.len() == project_count(),
        forall|i: int| 0 <= i < r@.len() ==> (#[trigger] r@[i]).index_spec() == i,
{
    let r = vec![Project::Dwall, Project::Lsar, Project::UP2B, Project::Fluxy];
    assert(r@[0].index_spec() == 0);
    assert(r@[1].index_spec() == 1);
    assert(r@[2].index_spec() == 2);
    assert(r@[3].index_spec() == 3);
    r
}

} // verus!
