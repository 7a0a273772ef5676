//! The run's configuration, read from the command-line arguments.
use vstd::prelude::*;

verus! {

/// `p` is a prefix of `s`.
pub open spec fn is_prefix(p: Seq<char>, s: Seq<char>) -> bool {
    p.len() <= s.len() && s.subrange(0, p.len() as int) == p
}

/// The flag that overrides the manifest's location.
pub open spec fn flag() -> Seq<char> {
    "--manifest-path"@
}

/// The flag joined to its value: `--manifest-path=`.
pub open spec fn joined_flag() -> Seq<char> {
    "--manifest-path="@
}

/// Argument `i` is the first that begins with the flag.
pub open spec fn is_first_flag(args: Seq<String>, i: int) -> bool {
    &&& 0 <= i < args.len()
    &&& is_prefix(flag(), args[i]@)
    &&& forall|k: int| 0 <= k < i ==> !is_prefix(flag(), #[trigger] args[k]@)
}

/// Why the arguments give no configuration.
#[derive(Debug, Clone, Copy, PartialEq, Eq, Structural)]
pub enum ArgError {
    /// The flag stands last, with no value after it.
    MissingManifestPath,
}

/// The manifest path that the arguments give. The first argument that begins
/// with the flag decides: the flag alone takes the next argument as the path;
/// the flag joined by `=` gives what follows the `=`; any other such argument
/// is taken whole. With no such argument there is no override.
pub open spec fn manifest_path_of(args: Seq<String>) -> Result<Option<Seq<char>>, ArgError> {
    if exists|i: int| is_first_flag(args, i) {
        let i = choose|i: int| is_first_flag(args, i);
        if args[i]@ == flag() {
            if i + 1 < args.len() {
                Ok(Some(args[i + 1]@))
            } else {
                Err(ArgError::MissingManifestPath)
            }
        } else if is_prefix(joined_flag(), args[i]@) {
            Ok(Some(args[i]@.subrange(joined_flag().len() as int, args[i]@.len() as int)))
        } else {
            Ok(Some(args[i]@))
        }
    } else {
        Ok(None)
    }
}

/// The settings of a run, gathered once from the arguments.
pub struct Config {
    /// Where the manifest is, when the default discovery is overridden.
    pub manifest_path: Option<String>,
}

/// The configuration as plain values.
pub open spec fn config_view(c: Config) -> Option<Seq<char>> {
    match c.manifest_path {
        Some(p) => Some(p@),
        None => None,
    }
}

/// Whether `s` begins with `p`.
fn starts_with(s: &str, p: &str) -> (r: bool)
    ensures
        r == is_prefix(p@, s@),
{
    let n = s.unicode_len();
    let m = p.unicode_len();
    if m > n {
        return false;
    }
    let mut i: usize = 0;
    while i < m
        invariant
            n == s@.len(),
            m == p@.len(),
            m <= n,
            0 <= i <= m,
            forall|k: int| 0 <= k < i ==> s@[k] == p@[k],
        decreases m - i,
    {
        if s.get_char(i) != p.get_char(i) {
            assert(s@.subrange(0, m as int)[i as int] != p@[i as int]);
            return false;
        }
        i += 1;
    }
    assert(s@.subrange(0, m as int) =~= p@);
    true
}

proof fn lemma_first_flag_unique(args: Seq<String>, i: int, j: int)
    requires
        is_first_flag(args, i),
        is_first_flag(args, j),
    ensures
        i == j,
{
    if i < j {
        assert(!is_prefix(flag(), args[i]@));
    } else if j < i {
        assert(!is_prefix(flag(), args[j]@));
    }
}

impl Config {
    /// Reads the configuration from the arguments, as `manifest_path_of`
    /// describes; every argument but the manifest-path flag is ignored.
    pub fn from_args(args: &Vec<String>) -> (r: Result<Config, ArgError>)
        ensures
            match manifest_path_of(args@) {
                Ok(p) => r matches Ok(c) && config_view(c) == p,
                Err(e) => r == Err::<Config, ArgError>(e),
            },
    {
        let mut i: usize = 0;
        while i < args.len()
            invariant
                0 <= i <= args@.len(),
                forall|k: int| 0 <= k < i ==> !is_prefix(flag(), #[trigger] args@[k]@),
            decreases args@.len() - i,
        {
            if starts_with(args[i].as_str(), "--manifest-path") {
                proof {
                    assert(is_first_flag(args@, i as int));
                    lemma_first_flag_unique(args@, i as int, choose|k: int| is_first_flag(args@, k));
                }
                let arg = args[i].as_str();
                if args[i] == String::from_str("--manifest-path") {
                    if i + 1 < args.len() {
                        return Ok(Config { manifest_path: Some(args[i + 1].clone()) });
                    } else {
                        return Err(ArgError::MissingManifestPath);
                    }
                } else if starts_with(arg, "--manifest-path=") {
                    proof {
                        reveal_strlit("--manifest-path=");
                    }
                    let value = arg.substring_char(16, arg.unicode_len());
                    return Ok(Config { manifest_path: Some(value.to_owned()) });
                } else {
                    return Ok(Config { manifest_path: Some(args[i].clone()) });
                }
            }
            i += 1;
        }
        Ok(Config { manifest_path: None })
    }
}

} // verus!
