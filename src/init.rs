//! Scaffolding of a new book: which directories and starter files it gets.
use crate::config::Config;
use crate::text::chars_of;
use vstd::prelude::*;
use vstd::string::StringExecFns;

verus! {

/// `base` and `rest` joined as paths: `rest` alone when it is absolute or `base` is empty.
pub open spec fn join_path(base: Seq<char>, rest: Seq<char>) -> Seq<char> {
    if base.len() == 0 || (rest.len() > 0 && rest[0] == '/') {
        rest
    } else if base.last() == '/' {
        base + rest
    } else {
        base + seq!['/'] + rest
    }
}

/// Joins two paths with a `/` between them.
pub fn join(base: &str, rest: &str) -> (r: String)
    ensures
        r@ == join_path(base@, rest@),
{
    let b = chars_of(base);
    let t = chars_of(rest);
    if b.len() == 0 || (t.len() > 0 && t[0] == '/') {
        return String::from_str(rest);
    }
    let mut r = String::from_str(base);
    if b[b.len() - 1] != '/' {
        proof {
            reveal_strlit("/");
        }
        r.append("/");
    }
    r.append(rest);
    r
}

/// The theme directory of a book at `root`: the configured one, else `theme`.
pub open spec fn theme_dir_of(root: Seq<char>, c: Config) -> Seq<char> {
    match c.html {
        Some(h) => match h.theme {
            Some(t) => join_path(root, t@),
            None => join_path(root, "theme"@),
        },
        None => join_path(root, "theme"@),
    }
}

/// Whether a book prints: as configured, and yes when it has no HTML settings.
pub open spec fn print_enabled(c: Config) -> bool {
    match c.html {
        Some(h) => h.print_enable,
        None => true,
    }
}

/// The files of the default theme under `dir`; the print style only when printing.
pub open spec fn theme_files(dir: Seq<char>, print: bool) -> Seq<Seq<char>> {
    seq![
        join_path(dir, "index.hbs"@),
        join_path(dir, "css/common.css"@),
        join_path(dir, "css/chrome.css"@),
    ] + (if print {
        seq![join_path(dir, "css/print.css"@)]
    } else {
        Seq::empty()
    }) + seq![
        join_path(dir, "css/variables.css"@),
        join_path(dir, "favicon.png"@),
        join_path(dir, "favicon.svg"@),
    ]
}

/// A file that a new book starts with.
#[derive(Debug, Clone, PartialEq)]
pub struct StubFile {
    pub path: String,
    pub contents: String,
}

/// The outline file that a book's source directory holds.
pub const OUTLINE_FILE: &'static str = "INTRODUCTION.md";

/// The starter outline of a new book.
pub const STUB_OUTLINE: &'static str = "# Introduction\n\n- [Chapter 1](./chapter_1.md)\n";

/// The starter chapter of a new book.
pub const STUB_CHAPTER_FILE: &'static str = "chapter_1.md";

pub const STUB_CHAPTER: &'static str = "# Chapter 1\n";

/// Sets up a new book under a root directory.
#[derive(Debug, Clone, PartialEq)]
pub struct DocGenerator {
    root: String,
    generate_gitign: bool,
    config: Config,
    duplicate_theme: bool,
}

impl DocGenerator {
    /// The book's root directory.
    pub closed spec fn root(&self) -> Seq<char> {
        self.root@
    }

    /// Whether a `.gitignore` for the output directory is wanted.
    pub closed spec fn gitignore_wanted(&self) -> bool {
        self.generate_gitign
    }

    /// The settings the new book is made with.
    pub closed spec fn settings(&self) -> Config {
        self.config
    }

    /// Whether the default theme is copied into the book.
    pub closed spec fn theme_wanted(&self) -> bool {
        self.duplicate_theme
    }

    /// A generator for a book at `root`, with the default settings and no extras.
    pub fn new(root: &str) -> (r: DocGenerator)
        ensures
            r.root() == root@,
            !r.gitignore_wanted(),
            !r.theme_wanted(),
            r.settings().docgen.src@ == "src"@,
            r.settings().build.build_dir@ == "book"@,
            r.settings().build.create_missing,
            r.settings().html is None,
    {
        DocGenerator {
            root: String::from_str(root),
            generate_gitign: false,
            config: Config::default_config(),
            duplicate_theme: false,
        }
    }

    /// Asks for a `.gitignore` (or not).
    pub fn generate_gitign(&mut self, generate: bool) -> (r: &mut DocGenerator)
        ensures
            r.gitignore_wanted() == generate,
            r.root() == old(self).root(),
            r.settings() == old(self).settings(),
            r.theme_wanted() == old(self).theme_wanted(),
            *final(self) == *final(r),
    {
        self.generate_gitign = generate;
        self
    }

    /// Sets the settings the book is made with.
    pub fn wconfig(&mut self, cfg: Config) -> (r: &mut DocGenerator)
        ensures
            r.settings() == cfg,
            r.root() == old(self).root(),
            r.gitignore_wanted() == old(self).gitignore_wanted(),
            r.theme_wanted() == old(self).theme_wanted(),
            *final(self) == *final(r),
    {
        self.config = cfg;
        self
    }

    /// The settings the book is made with.
    pub fn config(&self) -> (r: &Config)
        ensures
            *r == self.settings(),
    {
        &self.config
    }

    /// Asks for a copy of the default theme (or not).
    pub fn duplicate_theme(&mut self, duplicate: bool) -> (r: &mut DocGenerator)
        ensures
            r.theme_wanted() == duplicate,
            r.root() == old(self).root(),
            r.settings() == old(self).settings(),
            r.gitignore_wanted() == old(self).gitignore_wanted(),
            *final(self) == *final(r),
    {
        self.duplicate_theme = duplicate;
        self
    }

    /// The directories of the new book: its root, its sources and its output.
    pub fn make_dir_struct(&self) -> (r: Vec<String>)
        ensures
            r@.len() == 3,
            r@[0]@ == self.root(),
            r@[1]@ == join_path(self.root(), self.settings().docgen.src@),
            r@[2]@ == join_path(self.root(), self.settings().build.build_dir@),
    {
        let mut r: Vec<String> = Vec::new();
        r.push(String::from_str(self.root.as_str()));
        r.push(join(self.root.as_str(), self.config.docgen.src.as_str()));
        r.push(join(self.root.as_str(), self.config.build.build_dir.as_str()));
        r
    }

    /// The starter files of the new book: an outline with one chapter, and that chapter.
    pub fn gen_stub_files(&self) -> (r: Vec<StubFile>)
        ensures
            r@.len() == 2,
            r@[0].path@ == join_path(
                join_path(self.root(), self.settings().docgen.src@),
                OUTLINE_FILE@,
            ),
            r@[0].contents@ == STUB_OUTLINE@,
            r@[1].path@ == join_path(
                join_path(self.root(), self.settings().docgen.src@),
                STUB_CHAPTER_FILE@,
            ),
            r@[1].contents@ == STUB_CHAPTER@,
    {
        let src_dir = join(self.root.as_str(), self.config.docgen.src.as_str());
        let mut r: Vec<StubFile> = Vec::new();
        r.push(
            StubFile {
                path: join(src_dir.as_str(), OUTLINE_FILE),
                contents: String::from_str(STUB_OUTLINE),
            },
        );
        r.push(
            StubFile {
                path: join(src_dir.as_str(), STUB_CHAPTER_FILE),
                contents: String::from_str(STUB_CHAPTER),
            },
        );
        r
    }

    /// The files that a copy of the default theme consists of, in the book's theme directory.
    pub fn dup_theme(&self) -> (r: Vec<String>)
        ensures
            r@.map_values(|f: String| f@) == theme_files(
                theme_dir_of(self.root(), self.settings()),
                print_enabled(self.settings()),
            ),
    {
        let (dir, print) = match &self.config.html {
            Some(h) => {
                let dir = match &h.theme {
                    Some(t) => join(self.root.as_str(), t.as_str()),
                    None => join(self.root.as_str(), "theme"),
                };
                (dir, h.print_enable)
            },
            None => (join(self.root.as_str(), "theme"), true),
        };
        let mut r: Vec<String> = Vec::new();
        r.push(join(dir.as_str(), "index.hbs"));
        r.push(join(dir.as_str(), "css/common.css"));
        r.push(join(dir.as_str(), "css/chrome.css"));
        if print {
            r.push(join(dir.as_str(), "css/print.css"));
        }
        r.push(join(dir.as_str(), "css/variables.css"));
        r.push(join(dir.as_str(), "favicon.png"));
        r.push(join(dir.as_str(), "favicon.svg"));
        assert(r@.map_values(|f: String| f@) =~= theme_files(
            theme_dir_of(self.root(), self.settings()),
            print_enabled(self.settings()),
        ));
        r
    }

    /// The `.gitignore` of the new book, naming its output directory, when one is wanted.
    pub fn gen_gitign(&self) -> (r: Option<StubFile>)
        ensures
            r is Some == self.gitignore_wanted(),
            r matches Some(f) ==> f.path@ == join_path(self.root(), ".gitignore"@)
                && f.contents@ == self.settings().build.build_dir@ + "\n"@,
    {
        if self.generate_gitign {
            let mut contents = String::from_str(self.config.build.build_dir.as_str());
            contents.append("\n");
            Some(StubFile { path: join(self.root.as_str(), ".gitignore"), contents })
        } else {
            None
        }
    }
}

} // verus!
