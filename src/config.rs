//! The settings of a book that the build reads.
use vstd::prelude::*;
use vstd::string::StringExecFns;

verus! {

/// Where the book's sources are.
#[derive(Debug, Clone, PartialEq)]
pub struct DocgenConfig {
    /// The directory of the markdown sources, relative to the book's root.
    pub src: String,
}

/// Where and how the book is built.
#[derive(Debug, Clone, PartialEq)]
pub struct BuildConfig {
    /// The output directory, relative to the book's root.
    pub build_dir: String,
    /// Whether chapter files that the outline names but that are missing get created.
    pub create_missing: bool,
}

/// Settings of the HTML renderer that the core reads.
#[derive(Debug, Clone, PartialEq)]
pub struct HtmlConfig {
    /// The theme directory, relative to the book's root (`theme` when unset).
    pub theme: Option<String>,
    /// Whether the printable page is produced.
    pub print_enable: bool,
    /// A tracking identifier under the name that is no longer supported.
    pub google_analytics: Option<String>,
    /// Smart punctuation under its former name.
    pub curly_quotes: bool,
}

/// The settings of a book.
#[derive(Debug, Clone, PartialEq)]
pub struct Config {
    pub docgen: DocgenConfig,
    pub build: BuildConfig,
    /// The HTML renderer's settings, when the book has any.
    pub html: Option<HtmlConfig>,
}

/// A setting written under a name that is deprecated; it is warned about, not refused.
#[derive(Debug, Clone, Copy, PartialEq, Eq, Structural)]
pub enum Deprecation {
    GoogleAnalytics,
    CurlyQuotes,
}

impl Deprecation {
    /// The warning for this setting.
    pub fn message(&self) -> (r: &'static str)
        ensures
            *self is GoogleAnalytics ==> r@ == "The output.html.google-analytics field has been deprecated; it will be removed in a future release. Consider placing the appropriate site tag code into the theme/head.hbs file instead."@,
            *self is CurlyQuotes ==> r@ == "The output.html.curly-quotes field has been renamed to output.html.smart-punctuation. Use the new name in the configuration to remove this warning."@,
    {
        match self {
            Deprecation::GoogleAnalytics => "The output.html.google-analytics field has been deprecated; it will be removed in a future release. Consider placing the appropriate site tag code into the theme/head.hbs file instead.",
            Deprecation::CurlyQuotes => "The output.html.curly-quotes field has been renamed to output.html.smart-punctuation. Use the new name in the configuration to remove this warning.",
        }
    }
}

/// The deprecated settings that a configuration uses, in a fixed order.
pub open spec fn deprecations_of(c: Config) -> Seq<Deprecation> {
    match c.html {
        None => Seq::empty(),
        Some(h) => (if h.google_analytics is Some {
            seq![Deprecation::GoogleAnalytics]
        } else {
            Seq::empty()
        }) + (if h.curly_quotes {
            seq![Deprecation::CurlyQuotes]
        } else {
            Seq::empty()
        }),
    }
}

impl Config {
    /// The settings a book has when it writes none: sources in `src`, output in `book`,
    /// missing chapters created, no HTML settings.
    pub fn default_config() -> (r: Config)
        ensures
            r.docgen.src@ == "src"@,
            r.build.build_dir@ == "book"@,
            r.build.create_missing,
            r.html is None,
    {
        Config {
            docgen: DocgenConfig { src: String::from_str("src") },
            build: BuildConfig { build_dir: String::from_str("book"), create_missing: true },
            html: None,
        }
    }

    /// The HTML renderer's settings, if any.
    pub fn html_config(&self) -> (r: Option<&HtmlConfig>)
        ensures
            match self.html {
                Some(h) => r == Some(&h),
                None => r is None,
            },
    {
        match &self.html {
            Some(h) => Some(h),
            None => None,
        }
    }

    /// The deprecated settings this configuration uses.
    pub fn deprecations(&self) -> (r: Vec<Deprecation>)
        ensures
            r@ == deprecations_of(*self),
    {
        let mut r: Vec<Deprecation> = Vec::new();
        match &self.html {
            Some(h) => {
                if h.google_analytics.is_some() {
                    r.push(Deprecation::GoogleAnalytics);
                }
                if h.curly_quotes {
                    r.push(Deprecation::CurlyQuotes);
                }
                assert(r@ =~= deprecations_of(*self));
            },
            None => {
                assert(r@ =~= deprecations_of(*self));
            },
        }
        r
    }
}

} // verus!
