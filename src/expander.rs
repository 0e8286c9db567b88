use crate::archive::{Archive, BuildError, SourceFile};
use crate::compress::GzipStrategy;
use vstd::prelude::*;
use vstd::string::StringExecFns;

verus! {

/// What `str::to_lowercase` makes of a string.
pub uninterp spec fn lower_of(s: Seq<char>) -> Seq<char>;

/// Relies on `str::to_lowercase`: the result depends on the characters alone.
#[verifier::external_body]
fn to_lowercase(s: &str) -> (r: String)
    ensures
        r@ == lower_of(s@),
{
    s.to_lowercase()
}

/// The value given to one `name = value` option of the archive's attribute.
pub enum OptionValue {
    /// A string literal, with its contents.
    Str(String),
    /// A literal of another kind.
    OtherLit,
    /// An expression that is not a literal.
    NotLit,
}

/// One `name = value` option of the archive's attribute.
pub struct AttrOption {
    pub name: String,
    pub value: OptionValue,
}

/// Why the archive's options were refused.
#[derive(Clone, Copy, Debug, PartialEq, Eq, Structural)]
pub enum ConfigError {
    /// `path` is a literal, but not a string.
    PathNotString,
    /// `path` is not a literal.
    PathNotExpression,
    /// `gzip` names no policy.
    GzipUnknown,
    /// `gzip` is a literal, but not a string.
    GzipNotString,
    /// `gzip` is not a literal.
    GzipNotExpression,
    /// No `path` was given.
    PathMissing,
}

impl ConfigError {
    /// The message reported at the option's name.
    pub fn message(&self) -> (r: &'static str)
        ensures
            *self == ConfigError::PathNotString ==> r@ == "path must be string literal"@,
            *self == ConfigError::PathNotExpression ==> r@ == "path must be expression"@,
            *self == ConfigError::GzipUnknown ==> r@ == "gzip must be 'never' or 'auto' or 'all'"@,
            *self == ConfigError::GzipNotString ==> r@ == "gzip must be string literal"@,
            *self == ConfigError::GzipNotExpression ==> r@ == "gzip must be expression"@,
            *self == ConfigError::PathMissing ==> r@ == "path must be specified"@,
    {
        match self {
            ConfigError::PathNotString => "path must be string literal",
            ConfigError::PathNotExpression => "path must be expression",
            ConfigError::GzipUnknown => "gzip must be 'never' or 'auto' or 'all'",
            ConfigError::GzipNotString => "gzip must be string literal",
            ConfigError::GzipNotExpression => "gzip must be expression",
            ConfigError::PathMissing => "path must be specified",
        }
    }
}

/// The policy that a lower-case name stands for.
pub open spec fn strategy_named(s: Seq<char>) -> Option<GzipStrategy> {
    if s == seq!['n', 'e', 'v', 'e', 'r'] {
        Some(GzipStrategy::Never)
    } else if s == seq!['a', 'u', 't', 'o'] {
        Some(GzipStrategy::Auto)
    } else if s == seq!['a', 'l', 'l'] {
        Some(GzipStrategy::All)
    } else {
        None
    }
}

/// The contents of an optional path.
pub open spec fn path_view(p: Option<String>) -> Option<Seq<char>> {
    match p {
        Some(s) => Some(s@),
        None => None,
    }
}

/// The configuration after one option: `path` and `gzip` are read, other names
/// are ignored; the policy name is compared in lower case.
pub open spec fn apply_option(
    o: AttrOption,
    path: Option<Seq<char>>,
    gzip: GzipStrategy,
) -> Result<(Option<Seq<char>>, GzipStrategy), ConfigError> {
    if o.name@ == seq!['p', 'a', 't', 'h'] {
        match o.value {
            OptionValue::Str(s) => Ok((Some(s@), gzip)),
            OptionValue::OtherLit => Err(ConfigError::PathNotString),
            OptionValue::NotLit => Err(ConfigError::PathNotExpression),
        }
    } else if o.name@ == seq!['g', 'z', 'i', 'p'] {
        match o.value {
            OptionValue::Str(s) => match strategy_named(lower_of(s@)) {
                Some(g) => Ok((path, g)),
                None => Err(ConfigError::GzipUnknown),
            },
            OptionValue::OtherLit => Err(ConfigError::GzipNotString),
            OptionValue::NotLit => Err(ConfigError::GzipNotExpression),
        }
    } else {
        Ok((path, gzip))
    }
}

/// The configuration after the options in order, stopping at the first refusal.
pub open spec fn apply_options(
    opts: Seq<AttrOption>,
    path: Option<Seq<char>>,
    gzip: GzipStrategy,
) -> Result<(Option<Seq<char>>, GzipStrategy), ConfigError>
    decreases opts.len(),
{
    if opts.len() == 0 {
        Ok((path, gzip))
    } else {
        match apply_option(opts[0], path, gzip) {
            Err(e) => Err(e),
            Ok((p, g)) => apply_options(opts.drop_first(), p, g),
        }
    }
}

/// Applying a non-empty list applies its first option, then the rest.
proof fn lemma_apply_first(opts: Seq<AttrOption>, path: Option<Seq<char>>, gzip: GzipStrategy)
    requires
        opts.len() > 0,
    ensures
        apply_options(opts, path, gzip) == match apply_option(opts[0], path, gzip) {
            Err(e) => Err(e),
            Ok((p, g)) => apply_options(opts.drop_first(), p, g),
        },
{
}

/// Applies one option to the configuration read so far.
fn apply_one(o: &AttrOption, path: &mut Option<String>, gzip: &mut GzipStrategy) -> (r: Result<(), ConfigError>)
    ensures
        match apply_option(*o, path_view(*old(path)), *old(gzip)) {
            Err(e) => r == Err::<(), ConfigError>(e),
            Ok((p, g)) => r is Ok && path_view(*final(path)) == p && *final(gzip) == g,
        },
{
    proof {
        reveal_strlit("path");
        reveal_strlit("gzip");
        assert("path"@ =~= seq!['p', 'a', 't', 'h']);
        assert("gzip"@ =~= seq!['g', 'z', 'i', 'p']);
    }
    if o.name == String::from_str("path") {
        match &o.value {
            OptionValue::Str(s) => {
                *path = Some(s.clone());
            },
            OptionValue::OtherLit => {
                return Err(ConfigError::PathNotString);
            },
            OptionValue::NotLit => {
                return Err(ConfigError::PathNotExpression);
            },
        }
    } else if o.name == String::from_str("gzip") {
        match &o.value {
            OptionValue::Str(s) => {
                let lower = to_lowercase(s.as_str());
                match GzipStrategy::from_lowercase(lower.as_str()) {
                    Some(g) => {
                        *gzip = g;
                    },
                    None => {
                        return Err(ConfigError::GzipUnknown);
                    },
                }
            },
            OptionValue::OtherLit => {
                return Err(ConfigError::GzipNotString);
            },
            OptionValue::NotLit => {
                return Err(ConfigError::GzipNotExpression);
            },
        }
    }
    Ok(())
}

impl GzipStrategy {
    /// The policy named by a lower-case string: `never`, `auto` or `all`.
    pub fn from_lowercase(s: &str) -> (r: Option<GzipStrategy>)
        ensures
            r == strategy_named(s@),
    {
        let owned = String::from_str(s);
        proof {
            reveal_strlit("never");
            reveal_strlit("auto");
            reveal_strlit("all");
            assert("never"@ =~= seq!['n', 'e', 'v', 'e', 'r']);
            assert("auto"@ =~= seq!['a', 'u', 't', 'o']);
            assert("all"@ =~= seq!['a', 'l', 'l']);
        }
        if owned == String::from_str("never") {
            Some(GzipStrategy::Never)
        } else if owned == String::from_str("auto") {
            Some(GzipStrategy::Auto)
        } else if owned == String::from_str("all") {
            Some(GzipStrategy::All)
        } else {
            None
        }
    }
}

/// A validated archive definition: the type it is attached to, the root directory
/// of its files, and its compression policy.
pub struct TgzArchiveExpander {
    pub ident: String,
    pub path: String,
    pub gzip: GzipStrategy,
}

impl TgzArchiveExpander {
    /// Reads the options in order: `path` must be a string literal, `gzip` a string
    /// literal naming a policy in any case (`never` when absent); the last of each
    /// wins, other names are ignored, and the first malformed option is the error.
    /// Without a `path` the definition is refused.
    pub fn new(ident: String, options: Vec<AttrOption>) -> (r: Result<TgzArchiveExpander, ConfigError>)
        ensures
            match apply_options(options@, None, GzipStrategy::Never) {
                Err(e) => r == Err::<TgzArchiveExpander, ConfigError>(e),
                Ok((None, _)) => r == Err::<TgzArchiveExpander, ConfigError>(ConfigError::PathMissing),
                Ok((Some(p), g)) => r matches Ok(x) && x.ident@ == ident@ && x.path@ == p && x.gzip == g,
            },
    {
        let mut path: Option<String> = None;
        let mut gzip = GzipStrategy::Never;
        let ghost all = options@;
        let n = options.len();
        let mut i: usize = 0;
        proof {
            assert(all.skip(0) == all);
        }
        while i < n
            invariant
                n == all.len(),
                options@ == all,
                i <= n,
                apply_options(all, None, GzipStrategy::Never) == apply_options(
                    all.skip(i as int),
                    path_view(path),
                    gzip,
                ),
            decreases n - i,
        {
            proof {
                assert(all.skip(i as int).drop_first() == all.skip(i + 1));
                assert(all.skip(i as int)[0] == all[i as int]);
                lemma_apply_first(all.skip(i as int), path_view(path), gzip);
            }
            let o = &options[i];
            assert(*o == all[i as int]);
            match apply_one(o, &mut path, &mut gzip) {
                Err(e) => {
                    return Err(e);
                },
                Ok(()) => {},
            }
            i = i + 1;
        }
        proof {
            assert(all.skip(n as int).len() == 0);
        }
        match path {
            Some(p) => Ok(TgzArchiveExpander { ident, path: p, gzip }),
            None => Err(ConfigError::PathMissing),
        }
    }

    /// Builds the archive of `files`, the files found under `self.path`, under this
    /// definition's policy.
    pub fn expand(&self, files: &Vec<SourceFile>) -> (r: Result<Archive, BuildError>)
        requires
            files@.len() <= u32::MAX,
        ensures
            r is Err <==> !crate::archive::unique_paths(files@),
            r matches Err(e) ==> e == BuildError::DuplicatePath,
            r matches Ok(a) ==> a.built_from(files@, self.gzip),
    {
        Archive::build(files, self.gzip)
    }
}

} // verus!
