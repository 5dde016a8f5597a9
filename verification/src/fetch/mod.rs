//! Maven dependencies: their notation, where they are fetched from, and what
//! Coursier resolves them to.
use vstd::prelude::*;

use crate::paths::{extension, join, join_path, path_extension};
use crate::text::{
    char_rows, copy_str, find_char, has_char, join_with, joined, lines, push_char, replace_char,
    replace_char_str, split_lines, str_eq, string_from, string_views, to_chars, trim, trim_bounds,
};
use crate::utils::{CommandSpec, CommandSpecView};

verus! {

/// A Maven coordinate `group:artifact:version`.
#[derive(Clone, Debug)]
pub struct Dependency {
    pub group: String,
    pub artifact: String,
    pub version: String,
}

/// The view of a Maven coordinate.
pub struct DependencyView {
    pub group: Seq<char>,
    pub artifact: Seq<char>,
    pub version: Seq<char>,
}

impl View for Dependency {
    type V = DependencyView;

    open spec fn view(&self) -> DependencyView {
        DependencyView { group: self.group@, artifact: self.artifact@, version: self.version@ }
    }
}

/// A coordinate that is not `group:artifact:version` with three non-empty parts.
#[derive(Debug, Clone, Copy, PartialEq, Eq, Structural)]
pub struct InvalidDependency;

/// The length of the first `:`-separated field of `s`.
pub open spec fn field_end(s: Seq<char>) -> nat
    decreases s.len(),
{
    if s.len() == 0 || s[0] == ':' {
        0
    } else {
        1 + field_end(s.drop_first())
    }
}

/// The coordinate that `s` denotes, as `Dependency::from_str` reads it: the
/// first three `:`-separated fields, all non-empty; a fourth field and anything
/// after it is ignored.
pub open spec fn parse_dependency(s: Seq<char>) -> Option<DependencyView> {
    let i = field_end(s);
    if i >= s.len() {
        None
    } else {
        let rest1 = s.subrange(i as int + 1, s.len() as int);
        let j = field_end(rest1);
        if j >= rest1.len() {
            None
        } else {
            let rest2 = rest1.subrange(j as int + 1, rest1.len() as int);
            let k = field_end(rest2);
            let group = s.subrange(0, i as int);
            let artifact = rest1.subrange(0, j as int);
            let version = rest2.subrange(0, k as int);
            if group.len() == 0 || artifact.len() == 0 || version.len() == 0 {
                None
            } else {
                Some(DependencyView { group, artifact, version })
            }
        }
    }
}

/// The notation `group:artifact:version` of a coordinate.
pub open spec fn dependency_text(d: DependencyView) -> Seq<char> {
    d.group.push(':') + d.artifact.push(':') + d.version
}

/// A field that parses back to itself: non-empty and free of `:`.
pub open spec fn plain_field(s: Seq<char>) -> bool {
    s.len() > 0 && !has_char(s, ':')
}

/// `field_end` is where the first `:` stands, or the end.
pub proof fn lemma_field_end(s: Seq<char>, r: int)
    requires
        0 <= r <= s.len(),
        r < s.len() ==> s[r] == ':',
        forall|j: int| 0 <= j < r ==> s[j] != ':',
    ensures
        field_end(s) == r,
    decreases r,
{
    if r > 0 {
        let t = s.drop_first();
        assert forall|j: int| 0 <= j < r - 1 implies t[j] != ':' by {
            assert(t[j] == s[j + 1]);
        }
        lemma_field_end(t, r - 1);
    }
}

impl Dependency {
    /// A coordinate with the same parts.
    pub fn duplicate(&self) -> (res: Dependency)
        ensures
            res@ == self@,
    {
        Dependency {
            group: copy_str(self.group.as_str()),
            artifact: copy_str(self.artifact.as_str()),
            version: copy_str(self.version.as_str()),
        }
    }

    /// Reads `group:artifact:version`.
    pub fn parse(input: &str) -> (res: Result<Dependency, InvalidDependency>)
        ensures
            match res {
                Ok(d) => parse_dependency(input@) == Some(d@),
                Err(_) => parse_dependency(input@) is None,
            },
    {
        let cs = to_chars(input);
        let n = cs.len();
        let ghost s = cs@;
        let i = find_char(cs.as_slice(), 0, n, ':');
        proof {
            lemma_field_end(s, i as int);
        }
        if i == n {
            return Err(InvalidDependency);
        }
        let ghost rest1 = s.subrange(i + 1, n as int);
        let j = find_char(cs.as_slice(), i + 1, n, ':');
        proof {
            assert forall|x: int| 0 <= x < j - (i + 1) implies rest1[x] != ':' by {
                assert(rest1[x] == s[x + i + 1]);
            }
            lemma_field_end(rest1, j - (i + 1));
        }
        if j == n {
            return Err(InvalidDependency);
        }
        let ghost rest2 = rest1.subrange(j - i, rest1.len() as int);
        assert(rest2 == s.subrange(j + 1, n as int));
        let k = find_char(cs.as_slice(), j + 1, n, ':');
        proof {
            assert forall|x: int| 0 <= x < k - (j + 1) implies rest2[x] != ':' by {
                assert(rest2[x] == s[x + j + 1]);
            }
            lemma_field_end(rest2, k - (j + 1));
            assert(rest1.subrange(0, j - (i + 1)) == s.subrange(i + 1, j as int));
            assert(rest2.subrange(0, k - (j + 1)) == s.subrange(j + 1, k as int));
        }
        if i == 0 || j == i + 1 || k == j + 1 {
            return Err(InvalidDependency);
        }
        Ok(Dependency {
            group: string_from(cs.as_slice(), 0, i),
            artifact: string_from(cs.as_slice(), i + 1, j),
            version: string_from(cs.as_slice(), j + 1, k),
        })
    }

    /// The notation `group:artifact:version`.
    pub fn to_text(&self) -> (res: String)
        ensures
            res@ == dependency_text(self@),
    {
        let mut res = copy_str(self.group.as_str());
        push_char(&mut res, ':');
        res.append(self.artifact.as_str());
        push_char(&mut res, ':');
        res.append(self.version.as_str());
        res
    }
}

impl std::str::FromStr for Dependency {
    type Err = InvalidDependency;

    /// Reads `group:artifact:version`, as `Dependency::parse` does.
    fn from_str(input: &str) -> Result<Dependency, InvalidDependency> {
        Dependency::parse(input)
    }
}

/// Writing a coordinate out and reading it back gives the same coordinate,
/// whenever its parts are non-empty and free of `:`.
pub proof fn lemma_dependency_round_trip(d: DependencyView)
    requires
        plain_field(d.group),
        plain_field(d.artifact),
        plain_field(d.version),
    ensures
        parse_dependency(dependency_text(d)) == Some(d),
{
    let s = dependency_text(d);
    let g = d.group.len() as int;
    let a = d.artifact.len() as int;
    let v = d.version.len() as int;
    assert(s.len() == g + a + v + 2);
    assert forall|x: int| 0 <= x < g implies s[x] != ':' by {
        assert(s[x] == d.group[x]);
    }
    assert(s[g] == ':');
    lemma_field_end(s, g);
    let rest1 = s.subrange(g + 1, s.len() as int);
    assert forall|x: int| 0 <= x < a implies rest1[x] != ':' by {
        assert(rest1[x] == d.artifact[x]);
    }
    assert(rest1[a] == ':');
    lemma_field_end(rest1, a);
    let rest2 = rest1.subrange(a + 1, rest1.len() as int);
    assert(rest2 =~= d.version);
    assert forall|x: int| 0 <= x < v implies rest2[x] != ':' by {
        assert(rest2[x] == d.version[x]);
    }
    lemma_field_end(rest2, v);
    assert(s.subrange(0, g) =~= d.group);
    assert(rest1.subrange(0, a) =~= d.artifact);
    assert(rest2.subrange(0, v) =~= d.version);
}

/// How many times `c` occurs in `s`.
pub open spec fn char_count(s: Seq<char>, c: char) -> nat
    decreases s.len(),
{
    if s.len() == 0 {
        0
    } else {
        (if s[0] == c { 1nat } else { 0nat }) + char_count(s.drop_first(), c)
    }
}

/// Counting over a concatenation adds the counts.
pub proof fn lemma_char_count_add(a: Seq<char>, b: Seq<char>, c: char)
    ensures
        char_count(a + b, c) == char_count(a, c) + char_count(b, c),
    decreases a.len(),
{
    if a.len() > 0 {
        assert((a + b).drop_first() =~= a.drop_first() + b);
        lemma_char_count_add(a.drop_first(), b, c);
    } else {
        assert(a + b =~= b);
    }
}

/// A sequence without `c` counts no `c`, and one that counts none has none.
pub proof fn lemma_char_count_zero(s: Seq<char>, c: char)
    ensures
        (char_count(s, c) == 0) == !has_char(s, c),
    decreases s.len(),
{
    if s.len() > 0 {
        let t = s.drop_first();
        lemma_char_count_zero(t, c);
        if has_char(t, c) {
            let x = choose|x: int| 0 <= x < t.len() && t[x] == c;
            assert(s[x + 1] == c);
        }
        if has_char(s, c) && s[0] != c {
            let x = choose|x: int| 0 <= x < s.len() && s[x] == c;
            assert(t[x - 1] == c);
        }
    }
}

/// A notation with exactly two `:` that reads as a coordinate is that
/// coordinate's notation: reading it and writing it back gives the same text.
pub proof fn lemma_dependency_text_round_trip(s: Seq<char>)
    requires
        char_count(s, ':') == 2,
        parse_dependency(s) is Some,
    ensures
        dependency_text(parse_dependency(s)->0) == s,
{
    let d = parse_dependency(s)->0;
    lemma_field_end_prefix_plain(s);
    let i = field_end(s) as int;
    let rest1 = s.subrange(i + 1, s.len() as int);
    lemma_field_end_prefix_plain(rest1);
    let j = field_end(rest1) as int;
    let rest2 = rest1.subrange(j + 1, rest1.len() as int);
    assert(s =~= d.group + seq![':'] + rest1);
    assert(rest1 =~= d.artifact + seq![':'] + rest2);
    lemma_char_count_zero(d.group, ':');
    lemma_char_count_zero(d.artifact, ':');
    lemma_char_count_add(d.group + seq![':'], rest1, ':');
    lemma_char_count_add(d.group, seq![':'], ':');
    lemma_char_count_add(d.artifact + seq![':'], rest2, ':');
    lemma_char_count_add(d.artifact, seq![':'], ':');
    assert(char_count(seq![':'], ':') == 1) by {
        assert(seq![':'].drop_first() =~= Seq::<char>::empty());
    }
    lemma_char_count_zero(rest2, ':');
    assert forall|x: int| 0 <= x < rest2.len() implies rest2[x] != ':' by {
        if rest2[x] == ':' {
            assert(has_char(rest2, ':'));
        }
    }
    lemma_field_end(rest2, rest2.len() as int);
    assert(d.version =~= rest2);
    assert(dependency_text(d) =~= s);
}

/// What a coordinate is read as always has plain parts, so it reads back the same.
pub proof fn lemma_parsed_dependency_is_plain(s: Seq<char>)
    requires
        parse_dependency(s) is Some,
    ensures
        plain_field(parse_dependency(s)->0.group),
        plain_field(parse_dependency(s)->0.artifact),
        plain_field(parse_dependency(s)->0.version),
{
    lemma_field_end_prefix_plain(s);
    let i = field_end(s);
    let rest1 = s.subrange(i as int + 1, s.len() as int);
    lemma_field_end_prefix_plain(rest1);
    let j = field_end(rest1);
    let rest2 = rest1.subrange(j as int + 1, rest1.len() as int);
    lemma_field_end_prefix_plain(rest2);
}

/// No `:` stands before `field_end`, and it is within bounds.
pub proof fn lemma_field_end_prefix_plain(s: Seq<char>)
    ensures
        field_end(s) <= s.len(),
        !has_char(s.subrange(0, field_end(s) as int), ':'),
        field_end(s) < s.len() ==> s[field_end(s) as int] == ':',
    decreases s.len(),
{
    if s.len() > 0 && s[0] != ':' {
        let t = s.drop_first();
        lemma_field_end_prefix_plain(t);
        let k = field_end(t) as int;
        let p = s.subrange(0, k + 1);
        let q = t.subrange(0, k);
        assert forall|x: int| 0 <= x < k + 1 implies p[x] != ':' by {
            if x > 0 {
                assert(p[x] == q[x - 1]);
            }
        }
        if k < t.len() {
            assert(s[k + 1] == t[k]);
        }
    }
}

} // verus!

verus! {

/// What `fetch` is asked to do.
#[derive(Clone, Debug)]
pub struct Opts {
    pub dependencies: Vec<Dependency>,
    pub output: String,
    pub coursier: Option<String>,
}

/// The Maven repositories tried, in order.
pub open spec fn mirrors() -> Seq<Seq<char>> {
    seq!["https://maven.google.com"@, "https://repo.maven.apache.org/maven2"@]
}

/// The Maven repositories tried, in order.
pub fn maven_mirrors() -> (res: Vec<String>)
    ensures
        string_views(res@) == mirrors(),
        res@.len() == 2,
        res@[0]@ == mirrors()[0],
        res@[1]@ == mirrors()[1],
{
    let mut res: Vec<String> = Vec::new();
    res.push(copy_str("https://maven.google.com"));
    res.push(copy_str("https://repo.maven.apache.org/maven2"));
    assert(string_views(res@) =~= mirrors());
    res
}

/// The views of a list of coordinates.
pub open spec fn dep_views(v: Seq<Dependency>) -> Seq<DependencyView> {
    v.map_values(|d: Dependency| d@)
}

/// The notations of a list of coordinates.
pub open spec fn dep_texts(v: Seq<DependencyView>) -> Seq<Seq<char>> {
    v.map_values(|d: DependencyView| dependency_text(d))
}

/// The notations of a list of coordinates.
pub fn dependency_texts(deps: &Vec<Dependency>) -> (res: Vec<String>)
    ensures
        string_views(res@) == dep_texts(dep_views(deps@)),
{
    let mut res: Vec<String> = Vec::new();
    let mut i: usize = 0;
    while i < deps.len()
        invariant
            i <= deps@.len(),
            string_views(res@) == dep_texts(dep_views(deps@.take(i as int))),
        decreases deps@.len() - i,
    {
        let ghost before = res@;
        res.push(deps[i].to_text());
        assert(string_views(res@) =~= string_views(before).push(dependency_text(deps@[i as int]@)));
        assert(dep_texts(dep_views(deps@.take(i + 1))) =~= dep_texts(dep_views(deps@.take(i as int))).push(
            dependency_text(deps@[i as int]@),
        ));
        i = i + 1;
    }
    assert(deps@.take(deps@.len() as int) =~= deps@);
    res
}

/// The list shown before downloading: one coordinate per line.
pub fn dependency_list(deps: &Vec<Dependency>) -> (res: String)
    ensures
        res@ == joined(dep_texts(dep_views(deps@)), '\n'),
{
    let texts = dependency_texts(deps);
    join_with(&texts, '\n')
}

/// `-r <mirror>` for each mirror.
pub open spec fn mirror_args(ms: Seq<Seq<char>>) -> Seq<Seq<char>>
    decreases ms.len(),
{
    if ms.len() == 0 {
        Seq::empty()
    } else {
        mirror_args(ms.drop_last()) + seq!["-r"@, ms.last()]
    }
}

/// `coursier resolve --cache <output>/.coursier -r <mirror>... <coordinate>...`:
/// resolves the coordinates with their transitive dependencies.
pub open spec fn coursier_command(coursier: Seq<char>, deps: Seq<DependencyView>, output: Seq<char>) -> CommandSpecView {
    CommandSpecView {
        program: coursier,
        args: seq!["resolve"@, "--cache"@, join(output, ".coursier"@)] + mirror_args(mirrors())
            + dep_texts(deps),
    }
}

/// The command that resolves the coordinates through Coursier.
pub fn resolve_command(coursier: &str, deps: &Vec<Dependency>, output: &str) -> (cmd: CommandSpec)
    ensures
        cmd@ == coursier_command(coursier@, dep_views(deps@), output@),
{
    let mut cmd = CommandSpec::new(copy_str(coursier));
    cmd.arg_str("resolve");
    cmd.arg_str("--cache");
    cmd.arg(join_path(output, ".coursier"));
    let ms = maven_mirrors();
    let ghost head = cmd@.args;
    let mut i: usize = 0;
    while i < ms.len()
        invariant
            i <= ms@.len(),
            string_views(ms@) == mirrors(),
            cmd@.program == coursier@,
            cmd@.args == head + mirror_args(string_views(ms@).take(i as int)),
        decreases ms@.len() - i,
    {
        cmd.arg_str("-r");
        cmd.arg_str(ms[i].as_str());
        assert(string_views(ms@).take(i + 1).drop_last() =~= string_views(ms@).take(i as int));
        assert(string_views(ms@)[i as int] == ms@[i as int]@);
        assert(cmd@.args =~= head + mirror_args(string_views(ms@).take(i + 1)));
        i = i + 1;
    }
    assert(string_views(ms@).take(ms@.len() as int) =~= mirrors());
    let texts = dependency_texts(deps);
    let ghost mid = cmd@.args;
    let mut k: usize = 0;
    while k < texts.len()
        invariant
            k <= texts@.len(),
            cmd@.program == coursier@,
            cmd@.args == mid + string_views(texts@.take(k as int)),
        decreases texts@.len() - k,
    {
        cmd.arg_str(texts[k].as_str());
        assert(string_views(texts@.take(k + 1)) =~= string_views(texts@.take(k as int)).push(
            texts@[k as int]@,
        ));
        k = k + 1;
    }
    assert(texts@.take(texts@.len() as int) =~= texts@);
    assert(cmd@.args =~= coursier_command(coursier@, dep_views(deps@), output@).args);
    cmd
}

/// The coordinates Coursier printed: each line trimmed and read as a
/// coordinate, lines that are none skipped.
pub open spec fn resolved(ls: Seq<Seq<char>>) -> Seq<DependencyView>
    decreases ls.len(),
{
    if ls.len() == 0 {
        Seq::empty()
    } else {
        let prev = resolved(ls.drop_last());
        match parse_dependency(trim(ls.last())) {
            Some(d) => prev.push(d),
            None => prev,
        }
    }
}

/// Coursier printed no coordinate.
#[derive(Debug, Clone, Copy, PartialEq, Eq, Structural)]
pub struct NothingResolved;

/// The coordinates in Coursier's output; an error where there are none.
pub fn parse_resolved(stdout: &str) -> (res: Result<Vec<Dependency>, NothingResolved>)
    ensures
        match res {
            Ok(deps) => dep_views(deps@) == resolved(lines(stdout@)) && deps@.len() > 0,
            Err(_) => resolved(lines(stdout@)).len() == 0,
        },
{
    let ls = split_lines(stdout);
    let ghost lv = char_rows(ls@);
    let mut out: Vec<Dependency> = Vec::new();
    let mut i: usize = 0;
    while i < ls.len()
        invariant
            lv == char_rows(ls@),
            lv == lines(stdout@),
            i <= ls@.len(),
            dep_views(out@) == resolved(lv.take(i as int)),
        decreases ls@.len() - i,
    {
        assert(lv.take(i + 1).drop_last() =~= lv.take(i as int));
        assert(lv[i as int] == ls@[i as int]@);
        let line = &ls[i];
        assert(line@.subrange(0, line@.len() as int) == line@);
        let (a, b) = trim_bounds(line.as_slice(), 0, line.len());
        let t = crate::text::string_from(line.as_slice(), a, b);
        match Dependency::parse(t.as_str()) {
            Ok(d) => {
                let ghost before = out@;
                out.push(d);
                assert(dep_views(out@) =~= dep_views(before).push(d@));
            },
            Err(_) => {},
        }
        i = i + 1;
    }
    assert(lv.take(ls@.len() as int) =~= lv);
    if out.len() == 0 {
        return Err(NothingResolved);
    }
    Ok(out)
}

/// Where a coordinate is stored: `<output>/<group>/<artifact>/<version>`.
pub open spec fn dependency_dir(output: Seq<char>, d: DependencyView) -> Seq<char> {
    join(join(join(output, d.group), d.artifact), d.version)
}

/// Where a coordinate is stored.
pub fn dependency_dir_of(output: &str, dep: &Dependency) -> (res: String)
    ensures
        res@ == dependency_dir(output@, dep@),
{
    let a = join_path(output, dep.group.as_str());
    let b = join_path(a.as_str(), dep.artifact.as_str());
    join_path(b.as_str(), dep.version.as_str())
}

/// `<artifact>-<version><suffix>`
pub open spec fn artifact_file(d: DependencyView, suffix: Seq<char>) -> Seq<char> {
    d.artifact.push('-') + d.version + suffix
}

/// `<artifact>-<version><suffix>`
pub fn artifact_file_name(dep: &Dependency, suffix: &str) -> (res: String)
    ensures
        res@ == artifact_file(dep@, suffix@),
{
    let mut s = copy_str(dep.artifact.as_str());
    push_char(&mut s, '-');
    s.append(dep.version.as_str());
    s.append(suffix);
    s
}

/// `<mirror>/<group with . as />/<artifact>/<version>/<file>`
pub open spec fn remote(mirror: Seq<char>, d: DependencyView, file: Seq<char>) -> Seq<char> {
    mirror.push('/') + replace_char(d.group, '.', "/"@) + seq!['/'] + d.artifact + seq!['/']
        + d.version + seq!['/'] + file
}

/// The URL of a file of a coordinate on a mirror.
pub fn remote_url(mirror: &str, dep: &Dependency, file: &str) -> (res: String)
    ensures
        res@ == remote(mirror@, dep@, file@),
{
    let mut s = copy_str(mirror);
    push_char(&mut s, '/');
    let group = replace_char_str(dep.group.as_str(), '.', "/");
    s.append(group.as_str());
    push_char(&mut s, '/');
    s.append(dep.artifact.as_str());
    push_char(&mut s, '/');
    s.append(dep.version.as_str());
    push_char(&mut s, '/');
    s.append(file);
    assert(s@ =~= remote(mirror@, dep@, file@));
    s
}

/// One download to try: where from, and the file name it is saved under.
#[derive(Debug)]
pub struct Attempt {
    pub url: String,
    pub file: String,
}

/// The view of an attempt: URL and file name.
pub open spec fn attempt_views(v: Seq<Attempt>) -> Seq<(Seq<char>, Seq<char>)> {
    v.map_values(|a: Attempt| (a.url@, a.file@))
}

/// The POM of a coordinate on each mirror, in mirror order.
pub open spec fn pom_attempts_spec(d: DependencyView) -> Seq<(Seq<char>, Seq<char>)> {
    let f = artifact_file(d, ".pom"@);
    seq![(remote(mirrors()[0], d, f), f), (remote(mirrors()[1], d, f), f)]
}

/// The POM of a coordinate on each mirror, in mirror order.
pub fn pom_attempts(dep: &Dependency) -> (res: Vec<Attempt>)
    ensures
        attempt_views(res@) == pom_attempts_spec(dep@),
{
    let ms = maven_mirrors();
    let mut res: Vec<Attempt> = Vec::new();
    let f0 = artifact_file_name(dep, ".pom");
    res.push(Attempt { url: remote_url(ms[0].as_str(), dep, f0.as_str()), file: f0 });
    let f1 = artifact_file_name(dep, ".pom");
    res.push(Attempt { url: remote_url(ms[1].as_str(), dep, f1.as_str()), file: f1 });
    assert(attempt_views(res@) =~= pom_attempts_spec(dep@));
    res
}

/// The artifact of a coordinate, as an `.aar` and then as a `.jar`, on each
/// mirror in turn.
pub open spec fn artifact_attempts_spec(d: DependencyView) -> Seq<(Seq<char>, Seq<char>)> {
    let aar = artifact_file(d, ".aar"@);
    let jar = artifact_file(d, ".jar"@);
    seq![
        (remote(mirrors()[0], d, aar), aar),
        (remote(mirrors()[0], d, jar), jar),
        (remote(mirrors()[1], d, aar), aar),
        (remote(mirrors()[1], d, jar), jar),
    ]
}

/// The artifact downloads to try, in order.
pub fn artifact_attempts(dep: &Dependency) -> (res: Vec<Attempt>)
    ensures
        attempt_views(res@) == artifact_attempts_spec(dep@),
{
    let ms = maven_mirrors();
    let mut res: Vec<Attempt> = Vec::new();
    let aar = artifact_file_name(dep, ".aar");
    res.push(Attempt { url: remote_url(ms[0].as_str(), dep, aar.as_str()), file: aar });
    let jar = artifact_file_name(dep, ".jar");
    res.push(Attempt { url: remote_url(ms[0].as_str(), dep, jar.as_str()), file: jar });
    let aar = artifact_file_name(dep, ".aar");
    res.push(Attempt { url: remote_url(ms[1].as_str(), dep, aar.as_str()), file: aar });
    let jar = artifact_file_name(dep, ".jar");
    res.push(Attempt { url: remote_url(ms[1].as_str(), dep, jar.as_str()), file: jar });
    assert(attempt_views(res@) =~= artifact_attempts_spec(dep@));
    res
}

/// Whether a downloaded file is an Android archive, to be unpacked: its
/// extension is `aar`.
pub fn is_android_archive(path: &str) -> (b: bool)
    ensures
        b == (path_extension(path@) == Some("aar"@)),
{
    match extension(path) {
        Some(ext) => str_eq(ext.as_str(), "aar"),
        None => false,
    }
}

// ---------------------------------------------------------------------------
// Trying the candidate downloads of one file
// ---------------------------------------------------------------------------

/// What to do next while fetching one file from its candidate downloads.
#[derive(Clone, Copy, Debug, PartialEq, Eq, Structural)]
pub enum DownloadAction {
    /// Download candidate `i`.
    Try(usize),
    /// Candidate `i` came through: write it out; the search is over.
    Save(usize),
    /// No candidate came through; the last one that failed, if any was tried.
    GiveUp(Option<usize>),
}

/// The first thing to do with `n` candidates.
pub open spec fn download_start(n: usize) -> DownloadAction {
    if n > 0 {
        DownloadAction::Try(0)
    } else {
        DownloadAction::GiveUp(None)
    }
}

/// What follows the download of candidate `i` of `n`, as it went.
pub open spec fn download_next(n: usize, i: usize, ok: bool) -> DownloadAction {
    if ok {
        DownloadAction::Save(i)
    } else if i + 1 < n {
        DownloadAction::Try((i + 1) as usize)
    } else {
        DownloadAction::GiveUp(Some(i))
    }
}

/// Where the search stands after the given outcomes of the downloads tried, in
/// order; outcomes that come once the search is over change nothing.
pub open spec fn download_after(n: usize, outcomes: Seq<bool>) -> DownloadAction
    decreases outcomes.len(),
{
    if outcomes.len() == 0 {
        download_start(n)
    } else {
        match download_after(n, outcomes.drop_last()) {
            DownloadAction::Try(i) => if i < n {
                download_next(n, i, outcomes.last())
            } else {
                DownloadAction::Try(i)
            },
            other => other,
        }
    }
}

/// The first thing to do with `n` candidates: try the first, or give up
/// where there is none.
pub fn first_download_action(n: usize) -> (a: DownloadAction)
    ensures
        a == download_start(n),
{
    if n > 0 {
        DownloadAction::Try(0)
    } else {
        DownloadAction::GiveUp(None)
    }
}

/// What follows the download of candidate `i` of `n`: save it where it came
/// through, else try the next, else give up reporting it.
pub fn next_download_action(n: usize, i: usize, ok: bool) -> (a: DownloadAction)
    requires
        i < n,
    ensures
        a == download_next(n, i, ok),
{
    if ok {
        DownloadAction::Save(i)
    } else if i + 1 < n {
        DownloadAction::Try(i + 1)
    } else {
        DownloadAction::GiveUp(Some(i))
    }
}

/// The candidates are tried in order until one comes through, which is the one
/// saved; where none does, the search gives up after the last, reporting it.
pub proof fn lemma_download_first_success(n: usize, outcomes: Seq<bool>)
    ensures
        match download_after(n, outcomes) {
            DownloadAction::Try(i) => i == outcomes.len() && i < n
                && forall|j: int| 0 <= j < outcomes.len() ==> !#[trigger] outcomes[j],
            DownloadAction::Save(k) => k < n && k < outcomes.len() && outcomes[k as int]
                && forall|j: int| 0 <= j < k ==> !#[trigger] outcomes[j],
            DownloadAction::GiveUp(last) => if n == 0 {
                last is None
            } else {
                last == Some((n - 1) as usize) && n <= outcomes.len()
                    && forall|j: int| 0 <= j < n ==> !#[trigger] outcomes[j]
            },
        },
    decreases outcomes.len(),
{
    if outcomes.len() > 0 {
        let prev = outcomes.drop_last();
        lemma_download_first_success(n, prev);
        assert forall|j: int| 0 <= j < prev.len() implies prev[j] == outcomes[j] by {}
    }
}

// ---------------------------------------------------------------------------
// Laws of the Maven locations and of Coursier's output
// ---------------------------------------------------------------------------

/// `s` with every `.` turned into `/`, character by character.
pub open spec fn dots_to_slashes(s: Seq<char>) -> Seq<char> {
    Seq::new(s.len(), |i: int| if s[i] == '.' { '/' } else { s[i] })
}

/// Replacing `.` by `/` turns every dot, and nothing else, into a slash.
pub proof fn lemma_replace_dots(s: Seq<char>)
    ensures
        replace_char(s, '.', "/"@) == dots_to_slashes(s),
    decreases s.len(),
{
    reveal_strlit("/");
    if s.len() > 0 {
        lemma_replace_dots(s.drop_last());
        assert(replace_char(s, '.', "/"@) =~= dots_to_slashes(s));
    } else {
        assert(replace_char(s, '.', "/"@) =~= dots_to_slashes(s));
    }
}

/// A file of a coordinate lies on a mirror under the group with every `.` made
/// a `/`, then the artifact and the version; no dot is left in the group's part.
pub proof fn lemma_remote_layout(mirror: Seq<char>, d: DependencyView, file: Seq<char>)
    ensures
        remote(mirror, d, file) == mirror.push('/') + dots_to_slashes(d.group) + seq!['/'] + d.artifact
            + seq!['/'] + d.version + seq!['/'] + file,
        !has_char(dots_to_slashes(d.group), '.'),
{
    lemma_replace_dots(d.group);
}

/// A coordinate followed by a further `:` field (as Coursier prints a
/// configuration after the version) reads as that coordinate: the extra field
/// is ignored.
pub proof fn lemma_extra_field_ignored(d: DependencyView, extra: Seq<char>)
    requires
        plain_field(d.group),
        plain_field(d.artifact),
        plain_field(d.version),
    ensures
        parse_dependency(dependency_text(d) + seq![':'] + extra) == Some(d),
{
    let s = dependency_text(d) + seq![':'] + extra;
    let t = dependency_text(d);
    lemma_dependency_round_trip(d);
    let g = d.group.len() as int;
    let a = d.artifact.len() as int;
    let v = d.version.len() as int;
    assert forall|x: int| 0 <= x < g implies s[x] != ':' by {
        assert(s[x] == d.group[x]);
    }
    assert(s[g] == ':');
    lemma_field_end(s, g);
    let rest1 = s.subrange(g + 1, s.len() as int);
    assert forall|x: int| 0 <= x < a implies rest1[x] != ':' by {
        assert(rest1[x] == d.artifact[x]);
    }
    assert(rest1[a] == ':');
    lemma_field_end(rest1, a);
    let rest2 = rest1.subrange(a + 1, rest1.len() as int);
    assert forall|x: int| 0 <= x < v implies rest2[x] != ':' by {
        assert(rest2[x] == d.version[x]);
    }
    assert(rest2[v] == ':');
    lemma_field_end(rest2, v);
    assert(s.subrange(0, g) =~= d.group);
    assert(rest1.subrange(0, a) =~= d.artifact);
    assert(rest2.subrange(0, v) =~= d.version);
}

/// What Coursier resolved is, in order, the coordinate of every output line
/// whose trimmed text reads as one, and nothing else.
pub proof fn lemma_resolved_keeps_every_coordinate(ls: Seq<Seq<char>>)
    ensures
        resolved(ls) == ls.filter_map(|l: Seq<char>| parse_dependency(trim(l))),
    decreases ls.len(),
{
    if ls.len() > 0 {
        lemma_resolved_keeps_every_coordinate(ls.drop_last());
        let f = |l: Seq<char>| parse_dependency(trim(l));
        assert(ls.filter_map(f) =~= resolved(ls));
    }
}

} // verus!
