//! The registry of supported package ecosystems: each has a CLI-facing tag
//! (lower-kebab-case) and a canonical OSV wire name. Neither form is
//! mechanically derivable from the other, so both are explicit lookups.

use vstd::prelude::*;
use crate::text::str_eq;

verus! {

#[derive(Clone, Copy, Debug, PartialEq, Eq, Structural)]
pub enum Ecosystem {
    CratesIo,
    Pypi,
    Npm,
    Rubygems,
    Maven,
    Packagist,
    Go,
    Nuget,
    Pub,
}

/// The canonical OSV wire name of an ecosystem.
pub open spec fn wire_view(e: Ecosystem) -> Seq<char> {
    match e {
        Ecosystem::CratesIo => "crates.io"@,
        Ecosystem::Pypi => "PyPI"@,
        Ecosystem::Npm => "npm"@,
        Ecosystem::Rubygems => "RubyGems"@,
        Ecosystem::Maven => "Maven"@,
        Ecosystem::Packagist => "Packagist"@,
        Ecosystem::Go => "Go"@,
        Ecosystem::Nuget => "NuGet"@,
        Ecosystem::Pub => "Pub"@,
    }
}

/// The CLI tag of an ecosystem.
pub open spec fn tag_view(e: Ecosystem) -> Seq<char> {
    match e {
        Ecosystem::CratesIo => "crates-io"@,
        Ecosystem::Pypi => "pypi"@,
        Ecosystem::Npm => "npm"@,
        Ecosystem::Rubygems => "rubygems"@,
        Ecosystem::Maven => "maven"@,
        Ecosystem::Packagist => "packagist"@,
        Ecosystem::Go => "go"@,
        Ecosystem::Nuget => "nuget"@,
        Ecosystem::Pub => "pub"@,
    }
}

/// Which ecosystem, if any, a CLI tag names.
pub open spec fn spec_parse_tag(t: Seq<char>) -> Option<Ecosystem> {
    if t == tag_view(Ecosystem::CratesIo) {
        Some(Ecosystem::CratesIo)
    } else if t == tag_view(Ecosystem::Pypi) {
        Some(Ecosystem::Pypi)
    } else if t == tag_view(Ecosystem::Npm) {
        Some(Ecosystem::Npm)
    } else if t == tag_view(Ecosystem::Rubygems) {
        Some(Ecosystem::Rubygems)
    } else if t == tag_view(Ecosystem::Maven) {
        Some(Ecosystem::Maven)
    } else if t == tag_view(Ecosystem::Packagist) {
        Some(Ecosystem::Packagist)
    } else if t == tag_view(Ecosystem::Go) {
        Some(Ecosystem::Go)
    } else if t == tag_view(Ecosystem::Nuget) {
        Some(Ecosystem::Nuget)
    } else if t == tag_view(Ecosystem::Pub) {
        Some(Ecosystem::Pub)
    } else {
        None
    }
}

impl Ecosystem {
    /// The canonical OSV wire name, per the registry table.
    pub fn as_str(&self) -> (r: &'static str)
        ensures
            r@ == wire_view(*self),
    {
        match self {
            Ecosystem::CratesIo => "crates.io",
            Ecosystem::Pypi => "PyPI",
            Ecosystem::Npm => "npm",
            Ecosystem::Rubygems => "RubyGems",
            Ecosystem::Maven => "Maven",
            Ecosystem::Packagist => "Packagist",
            Ecosystem::Go => "Go",
            Ecosystem::Nuget => "NuGet",
            Ecosystem::Pub => "Pub",
        }
    }

    /// Maps a CLI tag to its ecosystem; unknown tags are rejected.
    pub fn parse_tag(s: &str) -> (r: Option<Ecosystem>)
        ensures
            r == spec_parse_tag(s@),
    {
        if str_eq(s, "crates-io") {
            Some(Ecosystem::CratesIo)
        } else if str_eq(s, "pypi") {
            Some(Ecosystem::Pypi)
        } else if str_eq(s, "npm") {
            Some(Ecosystem::Npm)
        } else if str_eq(s, "rubygems") {
            Some(Ecosystem::Rubygems)
        } else if str_eq(s, "maven") {
            Some(Ecosystem::Maven)
        } else if str_eq(s, "packagist") {
            Some(Ecosystem::Packagist)
        } else if str_eq(s, "go") {
            Some(Ecosystem::Go)
        } else if str_eq(s, "nuget") {
            Some(Ecosystem::Nuget)
        } else if str_eq(s, "pub") {
            Some(Ecosystem::Pub)
        } else {
            None
        }
    }
}

} // verus!
