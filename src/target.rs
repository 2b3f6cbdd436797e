//! The target resolver: turns a descriptor `path:kind:tool[:flag,flag,...]`
//! into a typed [`BenchmarkTarget`], rejecting unknown tokens up front.

use vstd::prelude::*;
use vstd::string::*;

verus! {

/// Whether a target is a single project or a multi-module workspace.
#[derive(Clone, Copy, Debug, PartialEq, Eq, Structural)]
pub enum ProjectType {
    Standalone,
    Workspace,
}

/// The build tool that turns a target into a runnable artifact.
#[derive(Clone, Copy, Debug, PartialEq, Eq, Structural)]
pub enum BuilderSystem {
    Cargo,
    Cmake,
    Clang,
    Gcc,
}

/// The unit in which durations are reported.
#[derive(Clone, Copy, Debug, PartialEq, Eq, Structural)]
pub enum TimeUnit {
    Seconds,
    Milliseconds,
    Microseconds,
    Nanoseconds,
}

/// A malformed descriptor, naming the field at fault.
#[derive(Clone, Debug)]
pub enum ParseError {
    MissingMode,
    MissingTool,
    UnknownProjectKind(String),
    UnknownBuildTool(String),
    UnknownTimeUnit(String),
    TooManyParts,
}

/// Mathematical counterpart of [`ParseError`].
pub enum ParseFault {
    MissingMode,
    MissingTool,
    UnknownProjectKind(Seq<char>),
    UnknownBuildTool(Seq<char>),
    UnknownTimeUnit(Seq<char>),
    TooManyParts,
}

impl View for ParseError {
    type V = ParseFault;

    open spec fn view(&self) -> ParseFault {
        match self {
            ParseError::MissingMode => ParseFault::MissingMode,
            ParseError::MissingTool => ParseFault::MissingTool,
            ParseError::UnknownProjectKind(s) => ParseFault::UnknownProjectKind(s@),
            ParseError::UnknownBuildTool(s) => ParseFault::UnknownBuildTool(s@),
            ParseError::UnknownTimeUnit(s) => ParseFault::UnknownTimeUnit(s@),
            ParseError::TooManyParts => ParseFault::TooManyParts,
        }
    }
}

/// What `str::to_lowercase` makes of a string.
pub uninterp spec fn lower_of(s: Seq<char>) -> Seq<char>;

/// Relies on `str::to_lowercase`: the lowercase form of `s` under the
/// Unicode `Lowercase` property, which depends on the characters alone.
#[verifier::external_body]
fn lowercase(s: &str) -> (r: String)
    ensures
        r@ == lower_of(s@),
{
    s.to_lowercase()
}

fn is_word(lower: &String, word: &str) -> (r: bool)
    ensures
        r == (lower@ == word@),
{
    *lower == word.to_owned()
}

/// The project kind a lowercase word names.
pub open spec fn kind_word(w: Seq<char>) -> Option<ProjectType> {
    if w == "s"@ || w == "standalone"@ {
        Some(ProjectType::Standalone)
    } else if w == "w"@ || w == "workspace"@ {
        Some(ProjectType::Workspace)
    } else {
        None
    }
}

/// The build tool a lowercase word names.
pub open spec fn tool_word(w: Seq<char>) -> Option<BuilderSystem> {
    if w == "cargo"@ {
        Some(BuilderSystem::Cargo)
    } else if w == "cmake"@ {
        Some(BuilderSystem::Cmake)
    } else if w == "clang"@ {
        Some(BuilderSystem::Clang)
    } else if w == "gcc"@ {
        Some(BuilderSystem::Gcc)
    } else {
        None
    }
}

/// The time unit a lowercase word names.
pub open spec fn unit_word(w: Seq<char>) -> Option<TimeUnit> {
    if w == "s"@ {
        Some(TimeUnit::Seconds)
    } else if w == "ms"@ {
        Some(TimeUnit::Milliseconds)
    } else if w == "us"@ {
        Some(TimeUnit::Microseconds)
    } else if w == "ns"@ {
        Some(TimeUnit::Nanoseconds)
    } else {
        None
    }
}

/// The project kind a token names, whatever its letter case.
pub open spec fn project_type_of(s: Seq<char>) -> Option<ProjectType> {
    kind_word(lower_of(s))
}

/// The build tool a token names, whatever its letter case.
pub open spec fn builder_of(s: Seq<char>) -> Option<BuilderSystem> {
    tool_word(lower_of(s))
}

/// The time unit a token names, whatever its letter case.
pub open spec fn time_unit_of(s: Seq<char>) -> Option<TimeUnit> {
    unit_word(lower_of(s))
}

/// The project kind named by `lower`, a token already in lowercase.
pub fn kind_from_lowercase(lower: &String) -> (r: Option<ProjectType>)
    ensures
        r == kind_word(lower@),
{
    if is_word(lower, "s") || is_word(lower, "standalone") {
        Some(ProjectType::Standalone)
    } else if is_word(lower, "w") || is_word(lower, "workspace") {
        Some(ProjectType::Workspace)
    } else {
        None
    }
}

/// The build tool named by `lower`, a token already in lowercase.
pub fn tool_from_lowercase(lower: &String) -> (r: Option<BuilderSystem>)
    ensures
        r == tool_word(lower@),
{
    if is_word(lower, "cargo") {
        Some(BuilderSystem::Cargo)
    } else if is_word(lower, "cmake") {
        Some(BuilderSystem::Cmake)
    } else if is_word(lower, "clang") {
        Some(BuilderSystem::Clang)
    } else if is_word(lower, "gcc") {
        Some(BuilderSystem::Gcc)
    } else {
        None
    }
}

/// The time unit named by `lower`, a token already in lowercase.
pub fn unit_from_lowercase(lower: &String) -> (r: Option<TimeUnit>)
    ensures
        r == unit_word(lower@),
{
    if is_word(lower, "s") {
        Some(TimeUnit::Seconds)
    } else if is_word(lower, "ms") {
        Some(TimeUnit::Milliseconds)
    } else if is_word(lower, "us") {
        Some(TimeUnit::Microseconds)
    } else if is_word(lower, "ns") {
        Some(TimeUnit::Nanoseconds)
    } else {
        None
    }
}

impl ProjectType {
    /// Reads `s` or `standalone`, `w` or `workspace`, in any letter case.
    pub fn from_str(s: &str) -> (r: Result<ProjectType, ParseError>)
        ensures
            project_type_of(s@) matches Some(p) ==> r == Ok::<ProjectType, ParseError>(p),
            project_type_of(s@) is None ==> (r matches Err(e) && e@
                == ParseFault::UnknownProjectKind(s@)),
    {
        match kind_from_lowercase(&lowercase(s)) {
            Some(p) => Ok(p),
            None => Err(ParseError::UnknownProjectKind(s.to_owned())),
        }
    }
}

impl BuilderSystem {
    /// Reads `cargo`, `cmake`, `clang` or `gcc`, in any letter case.
    pub fn from_str(s: &str) -> (r: Result<BuilderSystem, ParseError>)
        ensures
            builder_of(s@) matches Some(b) ==> r == Ok::<BuilderSystem, ParseError>(b),
            builder_of(s@) is None ==> (r matches Err(e) && e@ == ParseFault::UnknownBuildTool(s@)),
    {
        match tool_from_lowercase(&lowercase(s)) {
            Some(b) => Ok(b),
            None => Err(ParseError::UnknownBuildTool(s.to_owned())),
        }
    }
}

impl TimeUnit {
    /// Reads `s`, `ms`, `us` or `ns`, in any letter case.
    pub fn from_str(s: &str) -> (r: Result<TimeUnit, ParseError>)
        ensures
            time_unit_of(s@) matches Some(u) ==> r == Ok::<TimeUnit, ParseError>(u),
            time_unit_of(s@) is None ==> (r matches Err(e) && e@
                == ParseFault::UnknownTimeUnit(s@)),
    {
        match unit_from_lowercase(&lowercase(s)) {
            Some(u) => Ok(u),
            None => Err(ParseError::UnknownTimeUnit(s.to_owned())),
        }
    }
}

/// Parses a time unit for reports.
pub fn parse_duration(s: &str) -> (r: Result<TimeUnit, ParseError>)
    ensures
        time_unit_of(s@) matches Some(u) ==> r == Ok::<TimeUnit, ParseError>(u),
        time_unit_of(s@) is None ==> (r matches Err(e) && e@ == ParseFault::UnknownTimeUnit(s@)),
{
    TimeUnit::from_str(s)
}

/// The pieces of `s` between occurrences of `sep`, as `str::split` gives
/// them: `n` separators give `n + 1` pieces, some possibly empty.
pub open spec fn split(s: Seq<char>, sep: char) -> Seq<Seq<char>>
    decreases s.len(),
{
    if s.len() == 0 {
        seq![Seq::empty()]
    } else {
        let r = split(s.drop_last(), sep);
        if s.last() == sep {
            r.push(Seq::empty())
        } else {
            r.update(r.len() - 1, r.last().push(s.last()))
        }
    }
}

pub proof fn lemma_split_len(s: Seq<char>, sep: char)
    ensures
        split(s, sep).len() >= 1,
    decreases s.len(),
{
    if s.len() > 0 {
        lemma_split_len(s.drop_last(), sep);
    }
}

/// The non-empty entries of `ps`, in order.
pub open spec fn non_empty(ps: Seq<Seq<char>>) -> Seq<Seq<char>>
    decreases ps.len(),
{
    if ps.len() == 0 {
        ps
    } else {
        let r = non_empty(ps.drop_last());
        if ps.last().len() == 0 {
            r
        } else {
            r.push(ps.last())
        }
    }
}

pub(crate) fn split_pieces(s: &str, sep: char) -> (r: Vec<String>)
    ensures
        r.deep_view() == split(s@, sep),
{
    let n = s.unicode_len();
    let mut pieces: Vec<String> = Vec::new();
    let mut start: usize = 0;
    let mut i: usize = 0;
    proof {
        assert(s@.take(0) =~= Seq::<char>::empty());
    }
    while i < n
        invariant
            n == s@.len(),
            start <= i <= n,
            pieces.deep_view().push(s@.subrange(start as int, i as int)) == split(
                s@.take(i as int),
                sep,
            ),
        decreases n - i,
    {
        let c = s.get_char(i);
        proof {
            assert(s@.take(i + 1).drop_last() =~= s@.take(i as int));
            lemma_split_len(s@.take(i as int), sep);
        }
        if c == sep {
            let piece = s.substring_char(start, i).to_owned();
            let ghost before = pieces.deep_view();
            pieces.push(piece);
            proof {
                assert(pieces.deep_view() =~= before.push(piece@));
                assert(s@.subrange(i + 1, i + 1) =~= Seq::<char>::empty());
                assert(pieces.deep_view().push(s@.subrange(i + 1, i + 1)) =~= split(
                    s@.take(i + 1),
                    sep,
                ));
            }
            start = i + 1;
        } else {
            proof {
                assert(s@.subrange(start as int, i + 1) =~= s@.subrange(
                    start as int,
                    i as int,
                ).push(c));
                assert(pieces.deep_view().push(s@.subrange(start as int, i + 1)) =~= split(
                    s@.take(i + 1),
                    sep,
                ));
            }
        }
        i += 1;
    }
    let last = s.substring_char(start, n).to_owned();
    let ghost before = pieces.deep_view();
    pieces.push(last);
    proof {
        assert(pieces.deep_view() =~= before.push(last@));
        assert(s@.take(n as int) =~= s@);
    }
    pieces
}

fn keep_non_empty(v: &Vec<String>) -> (r: Vec<String>)
    ensures
        r.deep_view() == non_empty(v.deep_view()),
{
    let mut out: Vec<String> = Vec::new();
    let mut i: usize = 0;
    proof {
        assert(v.deep_view().take(0) =~= Seq::<Seq<char>>::empty());
    }
    while i < v.len()
        invariant
            i <= v.len(),
            out.deep_view() == non_empty(v.deep_view().take(i as int)),
        decreases v.len() - i,
    {
        proof {
            assert(v.deep_view().take(i + 1).drop_last() =~= v.deep_view().take(i as int));
        }
        if v[i].unicode_len() > 0 {
            let ghost before = out.deep_view();
            out.push(v[i].clone());
            proof {
                assert(out.deep_view() =~= before.push(v[i as int]@));
            }
        }
        i += 1;
    }
    proof {
        assert(v.deep_view().take(v.len() as int) =~= v.deep_view());
    }
    out
}


/// A typed target: where it lives, how it is built, and the extra flags
/// handed to the toolchain (`None` when no non-empty flag was given).
#[derive(Clone, Debug)]
pub struct BenchmarkTarget {
    pub path: String,
    pub tool: BuilderSystem,
    pub mode: ProjectType,
    pub compiler_flags: Option<Vec<String>>,
}

/// Mathematical counterpart of [`BenchmarkTarget`].
pub struct TargetView {
    pub path: Seq<char>,
    pub tool: BuilderSystem,
    pub mode: ProjectType,
    pub flags: Option<Seq<Seq<char>>>,
}

impl View for BenchmarkTarget {
    type V = TargetView;

    open spec fn view(&self) -> TargetView {
        TargetView {
            path: self.path@,
            tool: self.tool,
            mode: self.mode,
            flags: match self.compiler_flags {
                Some(f) => Some(f.deep_view()),
                None => None,
            },
        }
    }
}

/// The flag list written after the tool token: its non-empty comma-separated
/// entries, or `None` when there are none.
pub open spec fn flags_of(s: Seq<char>) -> Option<Seq<Seq<char>>> {
    let f = non_empty(split(s, ','));
    if f.len() == 0 {
        None
    } else {
        Some(f)
    }
}

/// What a descriptor `path:kind:tool[:flags]` denotes.
pub open spec fn parse_target(s: Seq<char>) -> Result<TargetView, ParseFault> {
    let parts = split(s, ':');
    if parts.len() < 2 {
        Err(ParseFault::MissingMode)
    } else if project_type_of(parts[1]) is None {
        Err(ParseFault::UnknownProjectKind(parts[1]))
    } else if parts.len() < 3 {
        Err(ParseFault::MissingTool)
    } else if builder_of(parts[2]) is None {
        Err(ParseFault::UnknownBuildTool(parts[2]))
    } else if parts.len() > 4 {
        Err(ParseFault::TooManyParts)
    } else {
        Ok(
            TargetView {
                path: parts[0],
                mode: project_type_of(parts[1])->0,
                tool: builder_of(parts[2])->0,
                flags: if parts.len() == 4 {
                    flags_of(parts[3])
                } else {
                    None
                },
            },
        )
    }
}

fn flags_from(s: &str) -> (r: Option<Vec<String>>)
    ensures
        match r {
            Some(v) => flags_of(s@) == Some(v.deep_view()),
            None => flags_of(s@) is None,
        },
{
    let pieces = split_pieces(s, ',');
    let kept = keep_non_empty(&pieces);
    if kept.len() == 0 {
        None
    } else {
        Some(kept)
    }
}

impl BenchmarkTarget {
    /// Reads a descriptor `path:kind:tool[:flag,flag,...]`.
    pub fn from_str(s: &str) -> (r: Result<BenchmarkTarget, ParseError>)
        ensures
            parse_target(s@) matches Ok(t) ==> (r matches Ok(x) && x@ == t),
            parse_target(s@) matches Err(f) ==> (r matches Err(e) && e@ == f),
    {
        let parts = split_pieces(s, ':');
        proof {
            lemma_split_len(s@, ':');
        }
        if parts.len() < 2 {
            return Err(ParseError::MissingMode);
        }
        let mode = match ProjectType::from_str(parts[1].as_str()) {
            Ok(m) => m,
            Err(e) => return Err(e),
        };
        if parts.len() < 3 {
            return Err(ParseError::MissingTool);
        }
        let tool = match BuilderSystem::from_str(parts[2].as_str()) {
            Ok(t) => t,
            Err(e) => return Err(e),
        };
        if parts.len() > 4 {
            return Err(ParseError::TooManyParts);
        }
        let compiler_flags = if parts.len() == 4 {
            flags_from(parts[3].as_str())
        } else {
            None
        };
        Ok(BenchmarkTarget { path: parts[0].clone(), tool, mode, compiler_flags })
    }
}

/// Parses a target descriptor.
pub fn parse_benchmark_target(s: &str) -> (r: Result<BenchmarkTarget, ParseError>)
    ensures
        parse_target(s@) matches Ok(t) ==> (r matches Ok(x) && x@ == t),
        parse_target(s@) matches Err(f) ==> (r matches Err(e) && e@ == f),
{
    BenchmarkTarget::from_str(s)
}


/// The entries of `ps` with `sep` between each two.
pub open spec fn join(ps: Seq<Seq<char>>, sep: char) -> Seq<char>
    decreases ps.len(),
{
    if ps.len() == 0 {
        Seq::empty()
    } else if ps.len() == 1 {
        ps[0]
    } else {
        join(ps.drop_last(), sep).push(sep) + ps.last()
    }
}

/// The descriptor `path:kind:tool`, followed by `:flags` when there are
/// flags.
pub open spec fn descriptor(
    path: Seq<char>,
    kind: Seq<char>,
    tool: Seq<char>,
    flags: Option<Seq<Seq<char>>>,
) -> Seq<char> {
    let base = (path.push(':') + kind).push(':') + tool;
    match flags {
        Some(f) => base.push(':') + join(f, ','),
        None => base,
    }
}

pub open spec fn free_of(s: Seq<char>, c: char) -> bool {
    forall|i: int| 0 <= i < s.len() ==> #[trigger] s[i] != c
}

/// Flags a descriptor can write: at least one, each non-empty and holding
/// neither `:` nor `,`.
pub open spec fn flags_describable(flags: Option<Seq<Seq<char>>>) -> bool {
    match flags {
        Some(f) => f.len() > 0 && forall|i: int|
            0 <= i < f.len() ==> {
                &&& #[trigger] f[i].len() > 0
                &&& free_of(f[i], ':')
                &&& free_of(f[i], ',')
            },
        None => true,
    }
}

proof fn lemma_split_free(s: Seq<char>, sep: char)
    requires
        free_of(s, sep),
    ensures
        split(s, sep) == seq![s],
    decreases s.len(),
{
    if s.len() > 0 {
        lemma_split_free(s.drop_last(), sep);
        assert(s.drop_last().push(s.last()) =~= s);
        assert(split(s, sep) =~= seq![s]);
    } else {
        assert(s =~= Seq::<char>::empty());
    }
}

proof fn lemma_split_concat(x: Seq<char>, y: Seq<char>, sep: char)
    ensures
        split(x.push(sep) + y, sep) == split(x, sep) + split(y, sep),
    decreases y.len(),
{
    let z = x.push(sep) + y;
    if y.len() == 0 {
        assert(z =~= x.push(sep));
        assert(z.drop_last() =~= x);
        assert(split(x, sep) + split(y, sep) =~= split(x, sep).push(Seq::empty()));
    } else {
        assert(z.drop_last() =~= x.push(sep) + y.drop_last());
        lemma_split_concat(x, y.drop_last(), sep);
        lemma_split_len(y.drop_last(), sep);
        let a = split(x, sep);
        let b = split(y.drop_last(), sep);
        if y.last() == sep {
            assert(split(z, sep) =~= a + split(y, sep));
        } else {
            assert((a + b).update((a + b).len() - 1, (a + b).last().push(y.last())) =~= a
                + b.update(b.len() - 1, b.last().push(y.last())));
            assert(split(z, sep) =~= a + split(y, sep));
        }
    }
}

proof fn lemma_join_free(ps: Seq<Seq<char>>, sep: char, c: char)
    requires
        sep != c,
        forall|i: int| 0 <= i < ps.len() ==> free_of(#[trigger] ps[i], c),
    ensures
        free_of(join(ps, sep), c),
    decreases ps.len(),
{
    if ps.len() > 1 {
        lemma_join_free(ps.drop_last(), sep, c);
        assert(free_of(ps[ps.len() - 1], c));
        let j = join(ps.drop_last(), sep).push(sep);
        assert forall|i: int| 0 <= i < join(ps, sep).len() implies #[trigger] join(ps, sep)[i]
            != c by {
            if i >= j.len() {
                assert(join(ps, sep)[i] == ps.last()[i - j.len()]);
            }
        }
    } else if ps.len() == 1 {
        assert(free_of(ps[0], c));
    }
}

proof fn lemma_split_join(ps: Seq<Seq<char>>, sep: char)
    requires
        ps.len() >= 1,
        forall|i: int| 0 <= i < ps.len() ==> free_of(#[trigger] ps[i], sep),
    ensures
        split(join(ps, sep), sep) == ps,
    decreases ps.len(),
{
    if ps.len() == 1 {
        lemma_split_free(ps[0], sep);
        assert(ps =~= seq![ps[0]]);
    } else {
        lemma_split_join(ps.drop_last(), sep);
        lemma_split_concat(join(ps.drop_last(), sep), ps.last(), sep);
        assert(free_of(ps[ps.len() - 1], sep));
        lemma_split_free(ps.last(), sep);
        assert(ps.drop_last() + seq![ps.last()] =~= ps);
    }
}

proof fn lemma_non_empty_keeps(ps: Seq<Seq<char>>)
    requires
        forall|i: int| 0 <= i < ps.len() ==> #[trigger] ps[i].len() > 0,
    ensures
        non_empty(ps) == ps,
    decreases ps.len(),
{
    if ps.len() > 0 {
        lemma_non_empty_keeps(ps.drop_last());
        assert(ps[ps.len() - 1].len() > 0);
        assert(ps.drop_last().push(ps.last()) =~= ps);
    }
}

/// Every descriptor `path:kind:tool[:flags]` whose kind and tool tokens
/// name a known kind and tool, in any letter case, reads as the target it
/// names, flags in their order.
pub proof fn lemma_descriptor_parses(
    path: Seq<char>,
    kind: Seq<char>,
    tool: Seq<char>,
    flags: Option<Seq<Seq<char>>>,
)
    requires
        free_of(path, ':'),
        free_of(kind, ':'),
        free_of(tool, ':'),
        project_type_of(kind) is Some,
        builder_of(tool) is Some,
        flags_describable(flags),
    ensures
        parse_target(descriptor(path, kind, tool, flags)) == Ok::<TargetView, ParseFault>(
            TargetView {
                path,
                mode: project_type_of(kind)->0,
                tool: builder_of(tool)->0,
                flags,
            },
        ),
{
    let base = (path.push(':') + kind).push(':') + tool;
    lemma_split_free(path, ':');
    lemma_split_free(kind, ':');
    lemma_split_free(tool, ':');
    lemma_split_concat(path, kind, ':');
    lemma_split_concat(path.push(':') + kind, tool, ':');
    assert(split(base, ':') =~= seq![path, kind, tool]);
    match flags {
        Some(f) => {
            lemma_join_free(f, ',', ':');
            lemma_split_free(join(f, ','), ':');
            lemma_split_concat(base, join(f, ','), ':');
            assert(split(descriptor(path, kind, tool, flags), ':') =~= seq![
                path,
                kind,
                tool,
                join(f, ','),
            ]);
            lemma_split_join(f, ',');
            lemma_non_empty_keeps(f);
        },
        None => {},
    }
}

/// A descriptor whose kind or tool token is not one of the known words is
/// refused with an error that names that token, never read as a default.
pub proof fn lemma_unknown_tokens_refused(s: Seq<char>)
    ensures
        split(s, ':').len() >= 2 && project_type_of(split(s, ':')[1]) is None ==> parse_target(s)
            == Err::<TargetView, ParseFault>(ParseFault::UnknownProjectKind(split(s, ':')[1])),
        split(s, ':').len() >= 3 && project_type_of(split(s, ':')[1]) is Some && builder_of(
            split(s, ':')[2],
        ) is None ==> parse_target(s) == Err::<TargetView, ParseFault>(
            ParseFault::UnknownBuildTool(split(s, ':')[2]),
        ),
{
}

} // verus!
