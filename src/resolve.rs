//! Layered resolution of the worship suffix: the environment variable, then
//! `./.dot.ini`, then `$HOME/.dot.ini`, then the built-in default.
use vstd::prelude::*;
use crate::ini::{ini_suffix, opt_view, read_ini_suffix};
use crate::text::{chars_of, trim, trim_range};

verus! {

/// The suffix used when no source supplies one.
pub const DEFAULT_SUFFIX: &'static str = "BECAUSE I WORSHIP THE DOT";

/// Which source supplied the resolved suffix.
#[derive(PartialEq, Eq, Structural, Clone, Copy, Debug)]
pub enum SuffixSource {
    Env,
    Cwd,
    Home,
    Default,
}

/// The label of each source, as shown to users.
pub open spec fn source_label(s: SuffixSource) -> Seq<char> {
    match s {
        SuffixSource::Env => "env"@,
        SuffixSource::Cwd => "./.dot.ini"@,
        SuffixSource::Home => "$HOME/.dot.ini"@,
        SuffixSource::Default => "default"@,
    }
}

impl SuffixSource {
    /// The label of this source, as shown to users.
    pub fn label(&self) -> (r: &'static str)
        ensures
            r@ == source_label(*self),
    {
        match self {
            SuffixSource::Env => "env",
            SuffixSource::Cwd => "./.dot.ini",
            SuffixSource::Home => "$HOME/.dot.ini",
            SuffixSource::Default => "default",
        }
    }
}

/// What the process environment and file system offer at resolution time.
pub struct SuffixInputs {
    /// The value of `DOT_WORSHIP_SUFFIX`, if it is set.
    pub env: Option<String>,
    /// The text of `./.dot.ini`, if it could be read.
    pub cwd_file: Option<String>,
    /// The text of `.dot.ini` in the home directory, if that could be read.
    pub home_file: Option<String>,
}

/// The effective suffix, never empty, and the source that supplied it.
pub struct ResolvedSuffix {
    pub value: String,
    pub source: SuffixSource,
}

/// The environment variable's value, trimmed, when that is not empty.
pub open spec fn env_value(env: Option<Seq<char>>) -> Option<Seq<char>> {
    match env {
        Some(e) => if trim(e).len() > 0 {
            Some(trim(e))
        } else {
            None
        },
        None => None,
    }
}

/// The value a config file's text yields, if the file could be read.
pub open spec fn file_value(file: Option<Seq<char>>) -> Option<Seq<char>> {
    match file {
        Some(c) => ini_suffix(c),
        None => None,
    }
}

/// The first source that yields a value, in the order environment, working
/// directory, home directory; the default when none does.
pub open spec fn resolution(inputs: &SuffixInputs) -> (Seq<char>, SuffixSource) {
    if let Some(v) = env_value(opt_view(inputs.env)) {
        (v, SuffixSource::Env)
    } else if let Some(v) = file_value(opt_view(inputs.cwd_file)) {
        (v, SuffixSource::Cwd)
    } else if let Some(v) = file_value(opt_view(inputs.home_file)) {
        (v, SuffixSource::Home)
    } else {
        (DEFAULT_SUFFIX@, SuffixSource::Default)
    }
}

/// The value a config file's text yields, if the file could be read.
fn file_suffix(file: &Option<String>) -> (r: Option<String>)
    ensures
        opt_view(r) == file_value(opt_view(*file)),
        r matches Some(s) ==> s@.len() > 0,
{
    match file {
        Some(content) => read_ini_suffix(content.as_str()),
        None => None,
    }
}

/// Resolves the suffix: a non-blank environment value (trimmed) wins, then a
/// value from `./.dot.ini`, then one from the home directory's `.dot.ini`,
/// then the default.
pub fn resolve_worship_suffix_with_source(inputs: &SuffixInputs) -> (r: ResolvedSuffix)
    ensures
        (r.value@, r.source) == resolution(inputs),
        r.value@.len() > 0,
        env_value(opt_view(inputs.env)) matches Some(v) ==> r.value@ == v && r.source
            == SuffixSource::Env,
        env_value(opt_view(inputs.env)) is None ==> (file_value(opt_view(inputs.cwd_file)) matches Some(
            v,
        ) ==> r.value@ == v && r.source == SuffixSource::Cwd),
        env_value(opt_view(inputs.env)) is None && file_value(opt_view(inputs.cwd_file)) is None ==> (
        file_value(opt_view(inputs.home_file)) matches Some(v) ==> r.value@ == v && r.source
            == SuffixSource::Home),
        env_value(opt_view(inputs.env)) is None && file_value(opt_view(inputs.cwd_file)) is None
            && file_value(opt_view(inputs.home_file)) is None ==> r.value@ == DEFAULT_SUFFIX@
            && r.source == SuffixSource::Default,
{
    if let Some(e) = &inputs.env {
        let v = chars_of(e.as_str());
        let (a, b) = trim_range(&v, 0, v.len());
        assert(v@.subrange(0, v@.len() as int) =~= v@);
        if a < b {
            let value = String::from_str(e.as_str().substring_char(a, b));
            return ResolvedSuffix { value, source: SuffixSource::Env };
        }
    }
    if let Some(value) = file_suffix(&inputs.cwd_file) {
        return ResolvedSuffix { value, source: SuffixSource::Cwd };
    }
    if let Some(value) = file_suffix(&inputs.home_file) {
        return ResolvedSuffix { value, source: SuffixSource::Home };
    }
    proof {
        reveal_strlit("BECAUSE I WORSHIP THE DOT");
    }
    ResolvedSuffix { value: String::from_str(DEFAULT_SUFFIX), source: SuffixSource::Default }
}

/// The resolved suffix.
pub fn worship_suffix(inputs: &SuffixInputs) -> (r: String)
    ensures
        r@ == resolution(inputs).0,
{
    resolve_worship_suffix_with_source(inputs).value
}

/// The label of the source that supplied the resolved suffix.
pub fn worship_suffix_source(inputs: &SuffixInputs) -> (r: String)
    ensures
        r@ == source_label(resolution(inputs).1),
{
    let resolved = resolve_worship_suffix_with_source(inputs);
    String::from_str(resolved.source.label())
}

} // verus!
