//! The usage verifier: from a candidate's package name to the two text
//! patterns probed in the source tree, and from the probes' outcomes to a
//! verdict.
use crate::names::NameSet;
use vstd::prelude::*;

verus! {

/// `s` with every hyphen replaced by an underscore.
pub open spec fn underscored(s: Seq<char>) -> Seq<char> {
    Seq::new(s.len(), |i: int| if s[i] == '-' { '_' } else { s[i] })
}

/// The identifier under which source code names a package: a name with a
/// hyphen has each hyphen replaced by an underscore; any other name stays as
/// it is.
pub open spec fn normalized(s: Seq<char>) -> Seq<char> {
    if s.contains('-') {
        underscored(s)
    } else {
        s
    }
}

/// The first probe's pattern: `use <identifier>`.
pub open spec fn use_probe(ident: Seq<char>) -> Seq<char> {
    seq!['u', 's', 'e', ' '] + ident
}

/// The second probe's pattern: `<identifier>::`.
pub open spec fn path_probe(ident: Seq<char>) -> Seq<char> {
    ident + seq![':', ':']
}

/// Relies on `String::push`, which appends the given character to the end of
/// the string.
#[verifier::external_body]
fn push_char(s: &mut String, c: char)
    ensures
        final(s)@ == old(s)@.push(c),
{
    s.push(c)
}

/// Whether `s` holds a hyphen.
pub fn has_hyphen(s: &str) -> (r: bool)
    ensures
        r == s@.contains('-'),
{
    let n = s.unicode_len();
    let mut i: usize = 0;
    while i < n
        invariant
            n == s@.len(),
            0 <= i <= n,
            forall|k: int| 0 <= k < i ==> s@[k] != '-',
        decreases n - i,
    {
        if s.get_char(i) == '-' {
            return true;
        }
        i += 1;
    }
    false
}

/// `s` with every hyphen replaced by an underscore.
fn replace_hyphens(s: &str) -> (r: String)
    ensures
        r@ == underscored(s@),
{
    let n = s.unicode_len();
    let mut r = String::new();
    let mut i: usize = 0;
    while i < n
        invariant
            n == s@.len(),
            0 <= i <= n,
            r@ == underscored(s@).take(i as int),
        decreases n - i,
    {
        let c = s.get_char(i);
        if c == '-' {
            push_char(&mut r, '_');
        } else {
            push_char(&mut r, c);
        }
        assert(r@ =~= underscored(s@).take(i + 1));
        i += 1;
    }
    assert(r@ =~= underscored(s@));
    r
}

/// The identifier under which source code would name the package `name`.
pub fn normalize_name(name: &str) -> (r: String)
    ensures
        r@ == normalized(name@),
{
    if has_hyphen(name) {
        replace_hyphens(name)
    } else {
        name.to_owned()
    }
}

/// The pattern `use <ident>`.
pub fn use_pattern(ident: &str) -> (r: String)
    ensures
        r@ == use_probe(ident@),
{
    let mut r = String::from_str("use ");
    proof {
        reveal_strlit("use ");
    }
    r.append(ident);
    assert(r@ =~= use_probe(ident@));
    r
}

/// The pattern `<ident>::`.
pub fn path_pattern(ident: &str) -> (r: String)
    ensures
        r@ == path_probe(ident@),
{
    let mut r = ident.to_owned();
    r.append("::");
    proof {
        reveal_strlit("::");
    }
    assert(r@ =~= path_probe(ident@));
    r
}

/// The two patterns probed for the package `name`: `use <identifier>` and
/// `<identifier>::`, where the identifier is the normalized name.
pub fn probe_patterns(name: &String) -> (r: (String, String))
    ensures
        r.0@ == use_probe(normalized(name@)),
        r.1@ == path_probe(normalized(name@)),
{
    let ident = normalize_name(name.as_str());
    (use_pattern(ident.as_str()), path_pattern(ident.as_str()))
}

/// What one textual probe of the source tree reported.
#[derive(Debug, Clone, Copy, PartialEq, Eq, Structural)]
pub enum ProbeOutcome {
    /// The pattern occurs in the source tree.
    Found,
    /// The search ran and the pattern does not occur.
    NotFound,
    /// The search could not be run, or ended in an error of its own.
    Failed,
}

/// The judgement on one duplicate candidate.
#[derive(Debug, Clone, Copy, PartialEq, Eq, Structural)]
pub enum Verdict {
    /// A probe found the package named in the source.
    Used,
    /// Both probes ran and neither found the package named.
    MaybeUnused,
    /// No probe found the package and at least one could not give an answer.
    Unknown,
}

/// The outcome that a search's exit code stands for: 0 when the pattern was
/// found, 1 when it was not, and anything else (or no code at all) when the
/// search itself failed.
pub open spec fn outcome_of(code: Option<i32>) -> ProbeOutcome {
    match code {
        Some(c) => if c == 0 {
            ProbeOutcome::Found
        } else if c == 1 {
            ProbeOutcome::NotFound
        } else {
            ProbeOutcome::Failed
        },
        None => ProbeOutcome::Failed,
    }
}

/// The verdict from the two probes: either finding is enough for "used"; with
/// neither, a failed probe leaves the verdict unknown, and two clean misses
/// make it "maybe unused".
pub open spec fn verdict_of(use_probe: ProbeOutcome, path_probe: ProbeOutcome) -> Verdict {
    if use_probe == ProbeOutcome::Found || path_probe == ProbeOutcome::Found {
        Verdict::Used
    } else if use_probe == ProbeOutcome::Failed || path_probe == ProbeOutcome::Failed {
        Verdict::Unknown
    } else {
        Verdict::MaybeUnused
    }
}

/// The outcome of a search that ended with exit code `code` (`None` where it
/// ended without one).
pub fn probe_outcome(code: Option<i32>) -> (r: ProbeOutcome)
    ensures
        r == outcome_of(code),
{
    match code {
        Some(0) => ProbeOutcome::Found,
        Some(1) => ProbeOutcome::NotFound,
        _ => ProbeOutcome::Failed,
    }
}

/// Judges a candidate from the outcomes of its `use` probe and its path probe.
pub fn judge(use_probe: ProbeOutcome, path_probe: ProbeOutcome) -> (r: Verdict)
    ensures
        r == verdict_of(use_probe, path_probe),
{
    match (use_probe, path_probe) {
        (ProbeOutcome::Found, _) | (_, ProbeOutcome::Found) => Verdict::Used,
        (ProbeOutcome::Failed, _) | (_, ProbeOutcome::Failed) => Verdict::Unknown,
        _ => Verdict::MaybeUnused,
    }
}

/// The names that may be unused, and those that could not be checked.
pub struct UsageReport {
    pub maybe_unused: NameSet,
    pub unknown: NameSet,
}

/// The names among `candidates` whose verdict is `v`.
pub open spec fn with_verdict(candidates: Seq<String>, verdicts: Seq<Verdict>, v: Verdict) -> Set<
    Seq<char>,
> {
    Set::new(
        |n: Seq<char>|
            exists|i: int|
                0 <= i < candidates.len() && #[trigger] candidates[i]@ == n && verdicts[i] == v,
    )
}

/// Splits the candidates by verdict, `verdicts[i]` being that of
/// `candidates[i]`.
pub fn classify(candidates: &Vec<String>, verdicts: &Vec<Verdict>) -> (r: UsageReport)
    requires
        candidates@.len() == verdicts@.len(),
    ensures
        r.maybe_unused.wf() && r.unknown.wf(),
        r.maybe_unused@ == with_verdict(candidates@, verdicts@, Verdict::MaybeUnused),
        r.unknown@ == with_verdict(candidates@, verdicts@, Verdict::Unknown),
{
    let mut maybe_unused = NameSet::new();
    let mut unknown = NameSet::new();
    let mut i: usize = 0;
    while i < candidates.len()
        invariant
            0 <= i <= candidates@.len(),
            candidates@.len() == verdicts@.len(),
            maybe_unused.wf() && unknown.wf(),
            maybe_unused@ == with_verdict(
                candidates@.take(i as int),
                verdicts@.take(i as int),
                Verdict::MaybeUnused,
            ),
            unknown@ == with_verdict(
                candidates@.take(i as int),
                verdicts@.take(i as int),
                Verdict::Unknown,
            ),
        decreases candidates@.len() - i,
    {
        let ghost (cs, vs) = (candidates@.take(i as int), verdicts@.take(i as int));
        let ghost (cn, vn) = (candidates@.take(i + 1), verdicts@.take(i + 1));
        match verdicts[i] {
            Verdict::MaybeUnused => maybe_unused.insert(candidates[i].clone()),
            Verdict::Unknown => unknown.insert(candidates[i].clone()),
            Verdict::Used => {},
        }
        proof {
            assert forall|v: Verdict| #[trigger] with_verdict(cn, vn, v) =~= (if verdicts@[i as int] == v {
                with_verdict(cs, vs, v).insert(candidates@[i as int]@)
            } else {
                with_verdict(cs, vs, v)
            }) by {
                assert forall|n: Seq<char>| #[trigger] with_verdict(cn, vn, v).contains(n) implies (if verdicts@[i as int] == v {
                    with_verdict(cs, vs, v).insert(candidates@[i as int]@)
                } else {
                    with_verdict(cs, vs, v)
                }).contains(n) by {
                    let k = choose|k: int| 0 <= k < cn.len() && #[trigger] cn[k]@ == n && vn[k] == v;
                    if k < i {
                        assert(cs[k]@ == n && vs[k] == v);
                    }
                }
                assert forall|n: Seq<char>| #[trigger] with_verdict(cs, vs, v).contains(n) implies with_verdict(cn, vn, v).contains(n) by {
                    let k = choose|k: int| 0 <= k < cs.len() && #[trigger] cs[k]@ == n && vs[k] == v;
                    assert(cn[k]@ == n && vn[k] == v);
                }
                if verdicts@[i as int] == v {
                    assert(cn[i as int]@ == candidates@[i as int]@ && vn[i as int] == v);
                }
            }
            assert(with_verdict(cn, vn, Verdict::MaybeUnused) == (if verdicts@[i as int] == Verdict::MaybeUnused {
                with_verdict(cs, vs, Verdict::MaybeUnused).insert(candidates@[i as int]@)
            } else {
                with_verdict(cs, vs, Verdict::MaybeUnused)
            }));
            assert(with_verdict(cn, vn, Verdict::Unknown) == (if verdicts@[i as int] == Verdict::Unknown {
                with_verdict(cs, vs, Verdict::Unknown).insert(candidates@[i as int]@)
            } else {
                with_verdict(cs, vs, Verdict::Unknown)
            }));
        }
        i += 1;
    }
    assert(candidates@.take(candidates@.len() as int) == candidates@);
    assert(verdicts@.take(verdicts@.len() as int) == verdicts@);
    UsageReport { maybe_unused, unknown }
}

/// Normalization changes only names that hold a hyphen, leaves no hyphen
/// behind, and applied a second time changes nothing.
pub proof fn lemma_normalized_idempotent(s: Seq<char>)
    ensures
        !s.contains('-') ==> normalized(s) == s,
        !normalized(s).contains('-'),
        normalized(normalized(s)) == normalized(s),
{
    let t = normalized(s);
    if s.contains('-') {
        assert forall|i: int| 0 <= i < t.len() implies t[i] != '-' by {}
    }
}

/// A probe that finds the identifier makes the verdict "used"; two probes that
/// ran and found nothing make it "maybe unused".
pub proof fn lemma_verdict_follows_probes(use_probe: ProbeOutcome, path_probe: ProbeOutcome)
    ensures
        use_probe == ProbeOutcome::Found || path_probe == ProbeOutcome::Found <==> verdict_of(
            use_probe,
            path_probe,
        ) == Verdict::Used,
        use_probe == ProbeOutcome::NotFound && path_probe == ProbeOutcome::NotFound ==> verdict_of(
            use_probe,
            path_probe,
        ) == Verdict::MaybeUnused,
{
}

} // verus!
