use vstd::prelude::*;

verus! {

#[verifier::external_type_specification]
#[verifier::external_body]
pub struct ExGlob(globset::Glob);

#[verifier::external_type_specification]
#[verifier::external_body]
pub struct ExGlobSet(globset::GlobSet);

#[verifier::external_type_specification]
#[verifier::external_body]
pub struct ExGlobSetBuilder(globset::GlobSetBuilder);

#[verifier::external_type_specification]
#[verifier::external_body]
pub struct ExGlobError(globset::Error);

/// Whether `pattern` is a well-formed glob under globset's default options
/// (those of the target platform: backslash escapes on Unix, not on
/// Windows).
pub uninterp spec fn glob_valid(pattern: Seq<char>) -> bool;

/// Whether the glob `pattern`, under globset's default options for the
/// target platform, matches `path`.
pub uninterp spec fn glob_matches(pattern: Seq<char>, path: Seq<char>) -> bool;

/// The pattern text a glob was parsed from.
pub uninterp spec fn glob_pattern(g: globset::Glob) -> Seq<char>;

/// The patterns of the globs a builder holds, in the order added.
pub uninterp spec fn builder_patterns(b: globset::GlobSetBuilder) -> Seq<Seq<char>>;

/// The patterns of the globs a compiled set was built from, in order.
pub uninterp spec fn globset_patterns(s: globset::GlobSet) -> Seq<Seq<char>>;

/// Whether globset compiles these well-formed patterns into one set: it
/// refuses a list only when its automaton would pass globset's size limit,
/// which depends on the patterns alone.
pub uninterp spec fn globset_compiles(patterns: Seq<Seq<char>>) -> bool;

/// Whether one of `patterns` matches `path`.
pub open spec fn matches_any(patterns: Seq<Seq<char>>, path: Seq<char>) -> bool {
    exists|i: int| 0 <= i < patterns.len() && glob_matches(patterns[i], path)
}

/// Relies on globset's `Glob::new`: it accepts exactly the well-formed
/// patterns, and the glob keeps the text it was parsed from.
pub assume_specification[ globset::Glob::new ](glob: &str) -> (r: Result<globset::Glob, globset::Error>)
    ensures
        r is Ok <==> glob_valid(glob@),
        r matches Ok(g) ==> glob_pattern(g) == glob@,
;

/// Relies on globset's `GlobSetBuilder::new`: a builder with no globs.
pub assume_specification[ globset::GlobSetBuilder::new ]() -> (r: globset::GlobSetBuilder)
    ensures
        builder_patterns(r) == Seq::<Seq<char>>::empty(),
;

/// Relies on globset's `GlobSetBuilder::build`: compiles the globs added so
/// far; it fails only when that list does not compile.
pub assume_specification[ globset::GlobSetBuilder::build ](
    builder: &globset::GlobSetBuilder,
) -> (r: Result<globset::GlobSet, globset::Error>)
    ensures
        r is Ok <==> globset_compiles(builder_patterns(*builder)),
        r matches Ok(set) ==> globset_patterns(set) == builder_patterns(*builder),
;

/// Relies on globset's `GlobSetBuilder::add`: appends one glob to the builder.
#[verifier::external_body]
fn builder_add(builder: &mut globset::GlobSetBuilder, glob: globset::Glob)
    ensures
        builder_patterns(*final(builder)) == builder_patterns(*old(builder)).push(glob_pattern(glob)),
{
    builder.add(glob);
}

/// A compiled list of glob patterns, answering whether a relative path
/// (with `/` separators) matches any of them.
pub struct Filter {
    patterns: Vec<String>,
    set: globset::GlobSet,
}

impl View for Filter {
    type V = Seq<Seq<char>>;

    closed spec fn view(&self) -> Seq<Seq<char>> {
        self.patterns@.map_values(|p: String| p@)
    }
}

/// Why a list of patterns could not be compiled.
#[derive(Debug)]
pub enum FilterError {
    /// The pattern at this index is malformed.
    InvalidGlob { index: usize },
    /// The patterns are well-formed but the set could not be compiled.
    Build,
}

/// Relies on globset's `GlobSet::is_match`: true iff one of the globs the
/// set was built from matches the path.
#[verifier::external_body]
fn set_is_match(set: &globset::GlobSet, path: &str) -> (r: bool)
    ensures
        r == (exists|i: int|
            0 <= i < globset_patterns(*set).len() && glob_matches(globset_patterns(*set)[i], path@)),
{
    set.is_match(path)
}

impl Filter {
    /// The compiled set was built from exactly `patterns`, in order.
    #[verifier::type_invariant]
    spec fn built_from_patterns(&self) -> bool {
        globset_patterns(self.set) == self.patterns@.map_values(|p: String| p@)
    }

    pub fn is_match(&self, path: &str) -> (r: bool)
        ensures
            r == matches_any(self@, path@),
    {
        proof {
            use_type_invariant(self);
        }
        set_is_match(&self.set, path)
    }
}

/// The texts of a list of patterns.
pub open spec fn pattern_texts(globs: Seq<String>) -> Seq<Seq<char>> {
    globs.map_values(|p: String| p@)
}

/// Compiles `glob_strings` into one matcher. Fails on the first malformed
/// pattern, or when globset does not compile the (well-formed) list.
pub fn build_globset(glob_strings: &Vec<String>) -> (r: Result<Filter, FilterError>)
    ensures
        r matches Ok(f) ==> f@ == glob_strings@.map_values(|p: String| p@),
        r matches Ok(_) ==> forall|i: int|
            0 <= i < glob_strings@.len() ==> glob_valid(#[trigger] glob_strings@[i]@),
        r matches Err(FilterError::InvalidGlob { index }) ==> index < glob_strings@.len()
            && !glob_valid(glob_strings@[index as int]@)
            && forall|k: int| 0 <= k < index ==> glob_valid(#[trigger] glob_strings@[k]@),
        (exists|i: int| 0 <= i < glob_strings@.len() && !glob_valid(#[trigger] glob_strings@[i]@))
            ==> r is Err,
        r matches Err(FilterError::Build) ==> (forall|i: int|
            0 <= i < glob_strings@.len() ==> glob_valid(#[trigger] glob_strings@[i]@))
            && !globset_compiles(pattern_texts(glob_strings@)),
        (forall|i: int| 0 <= i < glob_strings@.len() ==> glob_valid(#[trigger] glob_strings@[i]@))
            && globset_compiles(pattern_texts(glob_strings@)) ==> r is Ok,
{
    let mut builder = globset::GlobSetBuilder::new();
    let mut patterns: Vec<String> = Vec::new();
    let mut i: usize = 0;
    while i < glob_strings.len()
        invariant
            0 <= i <= glob_strings@.len(),
            patterns@.len() == i,
            forall|k: int| 0 <= k < i ==> #[trigger] patterns@[k]@ == glob_strings@[k]@,
            forall|k: int| 0 <= k < i ==> glob_valid(#[trigger] glob_strings@[k]@),
            builder_patterns(builder) =~= pattern_texts(glob_strings@).subrange(0, i as int),
        decreases glob_strings.len() - i,
    {
        let glob = globset::Glob::new(glob_strings[i].as_str());
        match glob {
            Ok(g) => {
                builder_add(&mut builder, g);
            },
            Err(_) => {
                return Err(FilterError::InvalidGlob { index: i });
            },
        }
        patterns.push(glob_strings[i].clone());
        i = i + 1;
    }
    assert(pattern_texts(glob_strings@).subrange(0, glob_strings@.len() as int) =~= pattern_texts(glob_strings@));
    match builder.build() {
        Ok(set) => {
            assert(patterns@.map_values(|p: String| p@) =~= pattern_texts(glob_strings@));
            let f = Filter { patterns, set };
            assert(f@ =~= glob_strings@.map_values(|p: String| p@));
            Ok(f)
        },
        Err(_) => Err(FilterError::Build),
    }
}

} // verus!
