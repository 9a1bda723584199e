//! The server configuration and the path arithmetic it needs. Reading the
//! configuration file itself is I/O and happens outside the library; the
//! values arrive here as plain data.

use vstd::prelude::*;
use crate::locale::Language;
use crate::text::{push_char, spec_opt_str};

verus! {

#[derive(Debug)]
pub struct Config {
    pub debug: bool,
    pub www: Www,
    pub gpt: Gpt,
    pub logfile: Option<String>,
    pub dirs: Dirs,
}

pub enum DirType {
    Www,
    Assets,
    Dist,
    Root,
}

#[derive(Debug)]
pub struct Dirs {
    pub pkg: Option<String>,
    pub pkg_www: Option<String>,
    pub pkg_dist: Option<String>,
    pub pkg_assets: Option<String>,
}

#[derive(Debug)]
pub struct Www {
    pub port: u16,
}

#[derive(Debug)]
pub struct Gpt {
    pub key_file: String,
    pub max_clients_count: u32,
    pub gpt_instructions: String,
    pub gpt_key: String,
}

/// Joining one component onto a path: an absolute component replaces the
/// path; anything else is appended behind exactly one separator.
pub open spec fn spec_path_join(base: Seq<char>, p: Seq<char>) -> Seq<char> {
    if p.len() > 0 && p[0] == '/' {
        p
    } else if base.len() == 0 {
        p
    } else if base.last() == '/' {
        base + p
    } else {
        base + "/"@ + p
    }
}

pub open spec fn spec_path_join_opt(base: Seq<char>, p: Option<Seq<char>>) -> Seq<char> {
    match p {
        Some(q) => spec_path_join(base, q),
        None => base,
    }
}

/// Builds a path left to right, as pushing onto a path buffer would.
struct PathBuilder {
    path: String,
}

impl PathBuilder {
    fn new() -> (r: PathBuilder)
        ensures
            r.path@ =~= Seq::<char>::empty(),
    {
        PathBuilder { path: String::new() }
    }

    fn join_opt(self, path: Option<&String>) -> (r: PathBuilder)
        ensures
            r.path@ == spec_path_join_opt(
                self.path@,
                match path {
                    Some(p) => Some(p@),
                    None => None,
                },
            ),
    {
        match path {
            Some(p) => self.join(p.as_str()),
            None => self,
        }
    }

    fn join(self, path: &str) -> (r: PathBuilder)
        ensures
            r.path@ == spec_path_join(self.path@, path@),
    {
        let plen = path.unicode_len();
        if plen > 0 && path.get_char(0) == '/' {
            return PathBuilder { path: path.to_owned() };
        }
        let blen = self.path.as_str().unicode_len();
        if blen == 0 {
            return PathBuilder { path: path.to_owned() };
        }
        let mut base = self.path;
        if base.as_str().get_char(blen - 1) != '/' {
            push_char(&mut base, '/');
            proof {
                reveal_strlit("/");
                assert(base@ =~= self.path@ + "/"@);
            }
        }
        base.append(path);
        PathBuilder { path: base }
    }

    fn build(self) -> (r: String)
        ensures
            r@ == self.path@,
    {
        self.path
    }
}

impl Dirs {
    /// The directory of one purpose, under the package root when one is set.
    pub open spec fn spec_dir_of(self, dir_type: DirType) -> Option<Seq<char>> {
        match dir_type {
            DirType::Www => spec_opt_str(self.pkg_www),
            DirType::Assets => spec_opt_str(self.pkg_assets),
            DirType::Dist => spec_opt_str(self.pkg_dist),
            DirType::Root => None,
        }
    }

    pub open spec fn spec_path(self, dir_type: DirType) -> Seq<char> {
        spec_path_join_opt(
            spec_path_join_opt(Seq::empty(), spec_opt_str(self.pkg)),
            self.spec_dir_of(dir_type),
        )
    }

    pub fn get_path(&self, dir_type: DirType) -> (r: String)
        ensures
            r@ == self.spec_path(dir_type),
    {
        PathBuilder::new().join_opt(self.pkg.as_ref()).join_opt(
            match dir_type {
                DirType::Www => self.pkg_www.as_ref(),
                DirType::Assets => self.pkg_assets.as_ref(),
                DirType::Dist => self.pkg_dist.as_ref(),
                DirType::Root => None,
            },
        ).build()
    }
}

impl Config {
    /// The identities file of a language, under the assets directory.
    pub open spec fn spec_identities_file(self, lang: Language) -> Seq<char> {
        spec_path_join(
            self.dirs.spec_path(DirType::Assets),
            if lang is English {
                "identities_en.txt"@
            } else {
                "identities_cs.txt"@
            },
        )
    }

    pub fn get_identities_file(&self, lang: &Language) -> (r: String)
        ensures
            r@ == self.spec_identities_file(*lang),
    {
        let filename = match lang {
            Language::English => "identities_en.txt",
            Language::Czech => "identities_cs.txt",
        };
        PathBuilder { path: self.dirs.get_path(DirType::Assets) }.join(filename).build()
    }

    /// A path of a component and a file inside it.
    pub fn get_path(&self, component: &str, file: &str) -> (r: String)
        ensures
            r@ == spec_path_join(spec_path_join(Seq::empty(), component@), file@),
    {
        PathBuilder::new().join(component).join(file).build()
    }
}

} // verus!
