//! Glob compilation and matching, built on the globset crate. A matcher is
//! compiled once per resolution from the root's glob list; a path matches the
//! set when it matches any one pattern. One malformed pattern fails the whole
//! compilation.

use vstd::prelude::*;

use crate::snapshot::str_views;

verus! {

#[verifier::external_type_specification]
#[verifier::external_body]
pub struct ExGlob(globset::Glob);

#[verifier::external_type_specification]
#[verifier::external_body]
pub struct ExGlobSet(globset::GlobSet);

#[verifier::external_type_specification]
#[verifier::external_body]
pub struct ExGlobSetBuilder(globset::GlobSetBuilder);

#[verifier::external_type_specification]
#[verifier::external_body]
pub struct ExGlobError(globset::Error);

/// Whether a pattern is syntactically valid, as globset::Glob::new decides.
pub uninterp spec fn glob_pattern_ok(pattern: Seq<char>) -> bool;

/// The pattern text a compiled glob was made from.
pub uninterp spec fn glob_pattern_of(g: globset::Glob) -> Seq<char>;

/// The patterns a builder holds, in the order they were added.
pub uninterp spec fn builder_patterns(b: globset::GlobSetBuilder) -> Seq<Seq<char>>;

/// The patterns a built set holds, in the order they were added.
pub uninterp spec fn globset_patterns(s: globset::GlobSet) -> Seq<Seq<char>>;

/// Whether building a set from these patterns succeeds, as
/// GlobSetBuilder::build decides; a function of the patterns alone.
pub uninterp spec fn globset_build_ok(patterns: Seq<Seq<char>>) -> bool;

/// Whether one compiled pattern matches a relative path, as globset decides;
/// a function of the pattern and the path alone.
pub uninterp spec fn glob_matches(pattern: Seq<char>, path: Seq<char>) -> bool;

/// Whether any pattern of the list matches the path.
pub open spec fn glob_set_matches(patterns: Seq<Seq<char>>, path: Seq<char>) -> bool {
    exists|i: int| 0 <= i < patterns.len() && glob_matches(patterns[i], path)
}

/// Whether compiling this pattern list into a matcher succeeds.
pub open spec fn globs_compile_ok(patterns: Seq<Seq<char>>) -> bool {
    (forall|i: int| 0 <= i < patterns.len() ==> glob_pattern_ok(patterns[i]))
        && globset_build_ok(patterns)
}

/// A glob pattern list did not compile.
#[derive(Debug)]
pub struct GlobCompileError {}

/// Relies on globset::Glob::new: succeeds exactly on syntactically valid
/// patterns, a function of the pattern text alone.
#[verifier::external_body]
fn glob_new(pattern: &str) -> (r: Result<globset::Glob, globset::Error>)
    ensures
        match r {
            Ok(g) => glob_pattern_ok(pattern@) && glob_pattern_of(g) == pattern@,
            Err(_) => !glob_pattern_ok(pattern@),
        },
{
    globset::Glob::new(pattern)
}

/// Relies on globset::GlobSetBuilder::new: a builder starts empty.
#[verifier::external_body]
fn builder_new() -> (r: globset::GlobSetBuilder)
    ensures
        builder_patterns(r) == Seq::<Seq<char>>::empty(),
{
    globset::GlobSetBuilder::new()
}

/// Relies on globset::GlobSetBuilder::add: appends one pattern to the set
/// under construction.
#[verifier::external_body]
fn builder_add(b: &mut globset::GlobSetBuilder, g: globset::Glob)
    ensures
        builder_patterns(*final(b)) == builder_patterns(*old(b)).push(glob_pattern_of(g)),
{
    b.add(g);
}

/// Relies on globset::GlobSetBuilder::build: on success the set holds the
/// builder's patterns; whether it succeeds is a function of those patterns.
#[verifier::external_body]
fn builder_build(b: &globset::GlobSetBuilder) -> (r: Result<globset::GlobSet, globset::Error>)
    ensures
        match r {
            Ok(s) => globset_build_ok(builder_patterns(*b)) && globset_patterns(s)
                == builder_patterns(*b),
            Err(_) => !globset_build_ok(builder_patterns(*b)),
        },
{
    b.build()
}

/// Relies on globset::GlobSet::is_match: true exactly when at least one
/// pattern in the set matches the path.
#[verifier::external_body]
fn globset_is_match(s: &globset::GlobSet, path: &str) -> (r: bool)
    ensures
        r == (exists|i: int|
            0 <= i < globset_patterns(*s).len() && glob_matches(globset_patterns(*s)[i], path@)),
{
    s.is_match(path)
}

/// A compiled matcher for a fixed list of glob patterns, reusable for every
/// candidate path of one resolution.
pub struct Matcher {
    set: globset::GlobSet,
}

impl Matcher {
    /// The pattern list this matcher was compiled from.
    pub closed spec fn patterns(self) -> Seq<Seq<char>> {
        globset_patterns(self.set)
    }

    /// Compile a glob list into a matcher. One malformed pattern fails the
    /// whole compilation; partial pattern sets are never built.
    pub fn compile(globs: &Vec<String>) -> (r: Result<Matcher, GlobCompileError>)
        ensures
            match r {
                Ok(m) => m.patterns() == str_views(*globs) && globs_compile_ok(str_views(*globs)),
                Err(_) => !globs_compile_ok(str_views(*globs)),
            },
    {
        let mut builder = builder_new();
        let mut i: usize = 0;
        while i < globs.len()
            invariant
                0 <= i <= globs.len(),
                builder_patterns(builder) =~= str_views(*globs).take(i as int),
                forall|j: int| 0 <= j < i ==> glob_pattern_ok(str_views(*globs)[j]),
            decreases globs.len() - i,
        {
            match glob_new(globs[i].as_str()) {
                Ok(g) => {
                    builder_add(&mut builder, g);
                    proof {
                        assert(builder_patterns(builder) =~= str_views(*globs).take(i + 1));
                    }
                },
                Err(_) => {
                    proof {
                        assert(!glob_pattern_ok(str_views(*globs)[i as int]));
                    }
                    return Err(GlobCompileError {  });
                },
            }
            i += 1;
        }
        proof {
            assert(str_views(*globs).take(globs@.len() as int) =~= str_views(*globs));
        }
        match builder_build(&builder) {
            Ok(set) => Ok(Matcher { set }),
            Err(_) => Err(GlobCompileError {  }),
        }
    }

    /// Whether any one of the compiled patterns matches the relative path.
    pub fn matches(&self, path: &str) -> (r: bool)
        ensures
            r == glob_set_matches(self.patterns(), path@),
    {
        globset_is_match(&self.set, path)
    }
}

} // verus!
