//! Maven: its version and home, where its local repository lies (from the
//! user's or the installation's `settings.xml`), the actions it offers for
//! an artifact, and the repository's summary rows.
use crate::command::{
    answered_run, args2, command_failure, envelope, envelope_is, envelope_owned, push_command,
    recorded_failure, str_views,
};
use crate::disk_usage::path_info;
use crate::path::{join, join_path};
use crate::scan_support::{
    empty_snapshot, expand_tilde, finish, finished_status, tilde_expansion, unknown, unknown_text,
};
use crate::text::{
    first_line, lines, lines_of, owned, push_str, starts_with, str_eq, str_starts_with,
    strip_prefix, strip_prefix_str, trim, trim_start, trim_string, views,
};
use crate::types::{
    CommandFailure, CommandRun, FailureKind, ManagerId, ManagerSnapshot, MavenRepositoryHealth,
    PackageRow, PathKind,
};
use crate::maven_repository::{
    artifact_keys, repository_summary, summarize_maven_repository, MavenRepositoryScan,
    MavenRepositoryWalk, MavenScanLimits,
};
use vstd::prelude::*;

verus! {

/// The first line that starts (after blanks) with `Apache Maven`, trimmed;
/// else the first line trimmed; `unknown` without any line.
pub open spec fn maven_version_spec(stdout: Seq<char>) -> Seq<char> {
    let ls = lines(stdout);
    if exists|i: int| 0 <= i < ls.len() && starts_with(trim_start(#[trigger] ls[i]), "Apache Maven"@) {
        let i = choose|i: int| is_first_maven_line(ls, i);
        trim(ls[i])
    } else if ls.len() > 0 {
        trim(ls[0])
    } else {
        unknown_text()
    }
}

pub open spec fn is_first_maven_line(ls: Seq<Seq<char>>, i: int) -> bool {
    &&& 0 <= i < ls.len()
    &&& starts_with(trim_start(ls[i]), "Apache Maven"@)
    &&& forall|j: int| 0 <= j < i ==> !starts_with(trim_start(#[trigger] ls[j]), "Apache Maven"@)
}

/// The version `mvn --version` reports.
pub fn parse_maven_version(stdout: &str) -> (r: String)
    ensures
        r@ == maven_version_spec(stdout@),
{
    let ls = lines_of(stdout);
    let ghost lv = lines(stdout@);
    let mut i: usize = 0;
    while i < ls.len()
        invariant
            i <= ls@.len(),
            views(ls@) == lv,
            lv == lines(stdout@),
            forall|j: int| 0 <= j < i ==> !starts_with(trim_start(#[trigger] lv[j]), "Apache Maven"@),
        decreases ls@.len() - i,
    {
        assert(ls@[i as int]@ == lv[i as int]);
        let cs = crate::text::chars_of(ls[i].as_str());
        let (a, _b) = crate::text::trim_bounds(&cs, 0, cs.len());
        assert(cs@.subrange(0, cs@.len() as int) == cs@);
        let rest = crate::text::string_from(&cs, a, cs.len());
        if str_starts_with(rest.as_str(), "Apache Maven") {
            proof {
                assert(is_first_maven_line(lv, i as int));
                let c = choose|c: int| is_first_maven_line(lv, c);
                if c < i {
                    assert(!starts_with(trim_start(lv[c]), "Apache Maven"@));
                }
                if c > i {
                    assert(!starts_with(trim_start(lv[i as int]), "Apache Maven"@));
                }
            }
            return trim_string(ls[i].as_str());
        }
        i = i + 1;
    }
    if ls.len() > 0 {
        trim_string(ls[0].as_str())
    } else {
        unknown()
    }
}

/// The value of the first `Maven home:` line, when not empty.
pub open spec fn maven_home_step(acc: Option<Seq<char>>, line: Seq<char>) -> Option<Seq<char>> {
    match acc {
        Some(h) => Some(h),
        None => match strip_prefix(trim(line), "Maven home:"@) {
            Some(v) => if trim(v).len() > 0 {
                Some(trim(v))
            } else {
                None
            },
            None => None,
        },
    }
}

pub open spec fn maven_home_fold(ls: Seq<Seq<char>>) -> Option<Seq<char>>
    decreases ls.len(),
{
    if ls.len() == 0 {
        None
    } else {
        maven_home_step(maven_home_fold(ls.drop_last()), ls.last())
    }
}

/// The Maven installation directory `mvn --version` reports.
pub fn parse_maven_home(stdout: &str) -> (r: Option<String>)
    ensures
        crate::text::opt_view(r) == maven_home_fold(lines(stdout@)),
{
    let ls = lines_of(stdout);
    let ghost lv = lines(stdout@);
    let mut i: usize = 0;
    assert(lv.subrange(0, 0) =~= Seq::<Seq<char>>::empty());
    while i < ls.len()
        invariant
            i <= ls@.len(),
            views(ls@) == lv,
            lv == lines(stdout@),
            maven_home_fold(lv.subrange(0, i as int)) is None,
        decreases ls@.len() - i,
    {
        assert(lv.subrange(0, i + 1).drop_last() == lv.subrange(0, i as int));
        assert(lv.subrange(0, i + 1).last() == lv[i as int]);
        assert(ls@[i as int]@ == lv[i as int]);
        let t = trim_string(ls[i].as_str());
        if let Some(v) = strip_prefix_str(t.as_str(), "Maven home:") {
            let value = trim_string(v.as_str());
            if !value.as_str().is_empty() {
                proof {
                    lemma_maven_home_found(lv, (i + 1) as int, value@);
                }
                return Some(value);
            }
        }
        i = i + 1;
    }
    assert(lv.subrange(0, lv.len() as int) == lv);
    None
}

pub proof fn lemma_maven_home_found(ls: Seq<Seq<char>>, i: int, h: Seq<char>)
    requires
        0 < i <= ls.len(),
        maven_home_fold(ls.subrange(0, i)) == Some(h),
    ensures
        maven_home_fold(ls) == Some(h),
    decreases ls.len() - i,
{
    if i < ls.len() {
        assert(ls.subrange(0, i + 1).drop_last() == ls.subrange(0, i));
        lemma_maven_home_found(ls, i + 1, h);
    } else {
        assert(ls.subrange(0, i) == ls);
    }
}

/// How a list of an artifact's versions reads: the one version, `unknown`
/// for none, `multiple (<n>)` for several.
pub open spec fn version_summary_spec(versions: Seq<Seq<char>>) -> Seq<char> {
    if versions.len() == 0 {
        unknown_text()
    } else if versions.len() == 1 {
        versions[0]
    } else {
        "multiple ("@ + crate::build_artifacts::decimal(versions.len()) + ")"@
    }
}

/// How a list of an artifact's versions reads.
pub fn maven_version_summary(versions: &[String]) -> (r: String)
    ensures
        r@ == version_summary_spec(views(versions@)),
{
    if versions.len() == 0 {
        unknown()
    } else if versions.len() == 1 {
        versions[0].clone()
    } else {
        let mut r = owned("multiple (");
        let n = crate::build_artifacts::decimal_string(versions.len() as u64);
        push_str(&mut r, n.as_str());
        push_str(&mut r, ")");
        r
    }
}

/// The actions Maven offers for an artifact `group:artifact`, after those
/// a row had: `dependency:get` of its one known version, then
/// `dependency:tree` restricted to it.
pub open spec fn maven_actions_appended(old: PackageRow, new: PackageRow, coordinate: Seq<char>) -> bool {
    let n = old.actions@.len();
    let single = old.version@ != unknown_text() && !starts_with(old.version@, "multiple "@);
    &&& new.name == old.name
    &&& new.version == old.version
    &&& new.path == old.path
    &&& new.source == old.source
    &&& new.kind == old.kind
    &&& new.signals == old.signals
    &&& new.actions@.subrange(0, n as int) == old.actions@
    &&& new.actions@.len() == n + 1 + (if single { 1int } else { 0int })
    &&& single ==> envelope_is(
        new.actions@[n as int],
        "mvn"@,
        seq!["dependency:get"@, "-Dartifact="@ + coordinate + ":"@ + old.version@],
        0,
    )
    &&& envelope_is(
        new.actions@.last(),
        "mvn"@,
        seq!["dependency:tree"@, "-Dincludes="@ + coordinate],
        0,
    )
}

/// Adds Maven's actions for `group_id:artifact_id` to a row.
pub fn attach_maven_actions(row: &mut PackageRow, group_id: &str, artifact_id: &str)
    ensures
        maven_actions_appended(*old(row), *final(row), group_id@ + ":"@ + artifact_id@),
{
    let ghost before = row.actions@;
    let mut coordinate = owned(group_id);
    push_str(&mut coordinate, ":");
    push_str(&mut coordinate, artifact_id);
    let u = unknown();
    if !str_eq(row.version.as_str(), u.as_str()) && !str_starts_with(row.version.as_str(), "multiple ") {
        let mut spec = owned("-Dartifact=");
        push_str(&mut spec, coordinate.as_str());
        push_str(&mut spec, ":");
        push_str(&mut spec, row.version.as_str());
        row.actions.push(envelope_owned("mvn", args2("dependency:get", spec.as_str()), 0));
    }
    let mut includes = owned("-Dincludes=");
    push_str(&mut includes, coordinate.as_str());
    row.actions.push(envelope_owned("mvn", args2("dependency:tree", includes.as_str()), 0));
    assert(row.actions@.subrange(0, before.len() as int) =~= before);
}

/// The root element of an XML document as the settings reader needs it:
/// its local name and, for each child node in order, whether it is an
/// element, its local name and its text.
#[derive(Debug, Clone)]
pub struct XmlRoot {
    pub name: String,
    pub children: Vec<(bool, String, Option<String>)>,
}

pub type XmlRootView = (Seq<char>, Seq<(bool, Seq<char>, Option<Seq<char>>)>);

pub open spec fn xml_children_view(c: Seq<(bool, String, Option<String>)>) -> Seq<(bool, Seq<char>, Option<Seq<char>>)> {
    c.map_values(|x: (bool, String, Option<String>)| (x.0, x.1@, crate::text::opt_view(x.2)))
}

/// What `roxmltree::Document::parse` makes of `text`, if it accepts it,
/// seen from its root element.
pub uninterp spec fn xml_root_element(text: Seq<char>) -> Option<XmlRootView>;

/// Parses `text` with `roxmltree::Document::parse` and reads its root
/// element: the local name (`tag_name().name()`) and each child node's
/// `is_element()`, local name and `text()`. The claim: the result is `Ok`
/// exactly when roxmltree accepts the text, and then it is that document's
/// root; of the error's text (roxmltree's message) nothing is stated.
#[verifier::external_body]
fn parse_xml_root(text: &str) -> (r: Result<XmlRoot, String>)
    ensures
        r is Ok <==> xml_root_element(text@) is Some,
        r matches Ok(x) ==> xml_root_element(text@) == Some((x.name@, xml_children_view(x.children@))),
{
    match roxmltree::Document::parse(text) {
        Ok(document) => {
            let root = document.root_element();
            let children = root.children().map(
                |node| (node.is_element(), node.tag_name().name().to_string(), node.text().map(str::to_string)),
            ).collect();
            Ok(XmlRoot { name: root.tag_name().name().to_string(), children })
        },
        Err(err) => Err(err.to_string()),
    }
}

/// The first element child named `localRepository`.
pub open spec fn first_local_repository(c: Seq<(bool, Seq<char>, Option<Seq<char>>)>) -> Option<Option<Seq<char>>>
    decreases c.len(),
{
    if c.len() == 0 {
        None
    } else if c[0].0 && c[0].1 == "localRepository"@ {
        Some(c[0].2)
    } else {
        first_local_repository(c.drop_first())
    }
}

/// The local repository a `settings.xml` names: the text of the first
/// `localRepository` element directly under a `settings` root, trimmed, when
/// not empty.
pub open spec fn local_repository_spec(root: XmlRootView) -> Option<Seq<char>> {
    if root.0 != "settings"@ {
        None
    } else {
        match first_local_repository(root.1) {
            Some(Some(t)) => if trim(t).len() > 0 {
                Some(trim(t))
            } else {
                None
            },
            _ => None,
        }
    }
}

/// Reads the local repository out of a `settings.xml`'s contents.
pub fn parse_maven_local_repository_setting(contents: &str) -> (r: Result<Option<String>, String>)
    ensures
        match xml_root_element(contents@) {
            None => r is Err,
            Some(root) => r matches Ok(v) && crate::text::opt_view(v) == local_repository_spec(root),
        },
{
    let root = parse_xml_root(contents)?;
    if !str_eq(root.name.as_str(), "settings") {
        return Ok(None);
    }
    let ghost cv = xml_children_view(root.children@);
    let mut i: usize = 0;
    assert(cv.subrange(0, cv.len() as int) == cv);
    while i < root.children.len()
        invariant
            i <= root.children@.len(),
            cv == xml_children_view(root.children@),
            root.name@ == "settings"@,
            xml_root_element(contents@) == Some((root.name@, cv)),
            first_local_repository(cv) == first_local_repository(cv.subrange(i as int, cv.len() as int)),
        decreases root.children@.len() - i,
    {
        let ghost sub = cv.subrange(i as int, cv.len() as int);
        assert(sub[0] == cv[i as int]);
        let (is_element, name, text) = (&root.children[i].0, &root.children[i].1, &root.children[i].2);
        assert(cv[i as int] == (*is_element, name@, crate::text::opt_view(*text)));
        if *is_element && str_eq(name.as_str(), "localRepository") {
            assert(first_local_repository(cv) == Some(crate::text::opt_view(*text)));
            return match text {
                Some(t) => {
                    let value = trim_string(t.as_str());
                    if value.as_str().is_empty() {
                        Ok(None)
                    } else {
                        Ok(Some(value))
                    }
                },
                None => Ok(None),
            };
        }
        assert(sub.drop_first() == cv.subrange(i + 1, cv.len() as int));
        i = i + 1;
    }
    Ok(None)
}

/// `str::replace`: every occurrence of `pat`, from the left and without
/// overlap, replaced by `rep`.
pub open spec fn replace_all(s: Seq<char>, pat: Seq<char>, rep: Seq<char>) -> Seq<char>
    recommends
        pat.len() > 0,
    decreases s.len(),
{
    if s.len() == 0 || pat.len() == 0 {
        s
    } else if starts_with(s, pat) {
        rep + replace_all(s.subrange(pat.len() as int, s.len() as int), pat, rep)
    } else {
        seq![s[0]] + replace_all(s.drop_first(), pat, rep)
    }
}

/// Replaces every occurrence of a non-empty `pat`.
pub fn replace_text(s: &str, pat: &str, rep: &str) -> (r: String)
    requires
        pat@.len() > 0,
    ensures
        r@ == replace_all(s@, pat@, rep@),
{
    let cs = crate::text::chars_of(s);
    let ps = crate::text::chars_of(pat);
    let mut out = String::new();
    let mut i: usize = 0;
    assert(cs@.subrange(0, cs@.len() as int) == cs@);
    while i < cs.len()
        invariant
            i <= cs@.len(),
            cs@ == s@,
            ps@ == pat@,
            ps@.len() > 0,
            out@ + replace_all(cs@.subrange(i as int, cs@.len() as int), pat@, rep@) == replace_all(s@, pat@, rep@),
        decreases cs@.len() - i,
    {
        let ghost rest = cs@.subrange(i as int, cs@.len() as int);
        if crate::text::range_starts_with(&cs, i, cs.len(), &ps) {
            assert(rest.subrange(ps@.len() as int, rest.len() as int) == cs@.subrange(i + ps@.len(), cs@.len() as int));
            push_str(&mut out, rep);
            i = i + ps.len();
        } else {
            assert(rest.drop_first() == cs@.subrange(i + 1, cs@.len() as int));
            assert(rest[0] == cs@[i as int]);
            crate::text::push_char(&mut out, cs[i]);
            i = i + 1;
        }
    }
    out
}

/// A path from a settings file: `${user.home}` and `${env.HOME}` become the
/// home directory (empty when unknown), then `~` is expanded.
pub open spec fn interpolate_spec(value: Seq<char>, home: Option<Seq<char>>) -> Seq<char> {
    let h = match home {
        Some(h) => h,
        None => seq![],
    };
    tilde_expansion(replace_all(replace_all(value, "${user.home}"@, h), "${env.HOME}"@, h), home)
}

/// Resolves a path from a settings file against the home directory.
pub fn interpolate_maven_path(value: &str, home: Option<&str>) -> (r: String)
    ensures
        r@ == interpolate_spec(value@, crate::cargo::opt_str_view(home)),
{
    let h = match home {
        Some(h) => owned(h),
        None => String::new(),
    };
    proof {
        reveal_strlit("${user.home}");
        reveal_strlit("${env.HOME}");
    }
    let first = replace_text(value, "${user.home}", h.as_str());
    let second = replace_text(first.as_str(), "${env.HOME}", h.as_str());
    expand_tilde(second.as_str(), home)
}

/// `read` answered `out` for `path`.
pub open spec fn file_read<R: Fn(&str) -> Result<Option<String>, String>>(
    read: R,
    path: Seq<char>,
    out: Result<Option<String>, String>,
) -> bool {
    exists|a: &str| a@ == path && #[trigger] read.ensures((a,), out)
}

/// What reading one settings file gives: the caller's error when it could
/// not be read, nothing when it does not exist, else the local repository it
/// names (or a parse error that names the file).
pub open spec fn setting_read(path: Seq<char>, out: Result<Option<String>, String>, r: Result<Option<String>, String>) -> bool {
    match out {
        Err(m) => r == Err::<Option<String>, String>(m),
        Ok(None) => r == Ok::<Option<String>, String>(None),
        Ok(Some(c)) => match xml_root_element(c@) {
            None => r matches Err(m) && starts_with(m@, "Could not parse "@ + path + ": "@),
            Some(root) => r matches Ok(v) && crate::text::opt_view(v) == local_repository_spec(root),
        },
    }
}

/// Reads the local repository a settings file names; `read_file` gives the
/// file's contents, nothing when it does not exist, or why it could not be
/// read.
pub fn read_maven_local_repository_setting<R: Fn(&str) -> Result<Option<String>, String>>(
    path: &str,
    read_file: &R,
) -> (r: Result<Option<String>, String>)
    requires
        forall|a: &str| read_file.requires((a,)),
    ensures
        exists|out: Result<Option<String>, String>| #[trigger] file_read(*read_file, path@, out) && setting_read(path@, out, r),
{
    let out = read_file(path);
    assert(read_file.ensures((path,), out));
    let ghost answer = out;
    assert(file_read(*read_file, path@, answer));
    let contents = match out {
        Ok(Some(c)) => c,
        Ok(None) => return Ok(None),
        Err(m) => return Err(m),
    };
    match parse_maven_local_repository_setting(contents.as_str()) {
        Ok(v) => Ok(v),
        Err(err) => {
            let mut m = owned("Could not parse ");
            push_str(&mut m, path);
            push_str(&mut m, ": ");
            let ghost prefix = m@;
            push_str(&mut m, err.as_str());
            assert(m@.subrange(0, prefix.len() as int) =~= prefix);
            Err(m)
        },
    }
}

/// Where the local repository lies and what went wrong finding it.
#[derive(Debug, Clone)]
pub struct MavenLocalRepositoryResolution {
    pub path: String,
    pub message: Option<String>,
}

pub open spec fn fallback_repository(home: Option<Seq<char>>) -> Seq<char> {
    match home {
        Some(h) => join_path(h, ".m2/repository"@),
        None => ".m2/repository"@,
    }
}

/// Reading the settings file at `path` gave `res`.
pub open spec fn setting_outcome<R: Fn(&str) -> Result<Option<String>, String>>(
    read: R,
    path: Seq<char>,
    res: Result<Option<String>, String>,
) -> bool {
    exists|out: Result<Option<String>, String>| #[trigger] file_read(read, path, out) && setting_read(path, out, res)
}

pub open spec fn read_error(res: Option<Result<Option<String>, String>>) -> Option<Seq<char>> {
    match res {
        Some(Err(m)) => Some(m@),
        _ => None,
    }
}

pub open spec fn read_value(res: Option<Result<Option<String>, String>>) -> Option<Seq<char>> {
    match res {
        Some(Ok(Some(v))) => Some(v@),
        _ => None,
    }
}

/// The errors met, joined by `; `.
pub open spec fn joined_errors(a: Option<Seq<char>>, b: Option<Seq<char>>) -> Option<Seq<char>> {
    match (a, b) {
        (Some(x), Some(y)) => Some(x + "; "@ + y),
        (Some(x), None) => Some(x),
        (None, Some(y)) => Some(y),
        (None, None) => None,
    }
}

/// Where the local repository lies, from what reading the user's settings
/// (`user`) and then the installation's (`global`) gave: the first value
/// found, interpolated against the home directory; else the default under
/// the home directory, with the errors met.
pub open spec fn resolution_spec(
    home: Option<Seq<char>>,
    user: Option<Result<Option<String>, String>>,
    global: Option<Result<Option<String>, String>>,
    r: MavenLocalRepositoryResolution,
) -> bool {
    match read_value(user) {
        Some(v) => r.path@ == interpolate_spec(v, home) && r.message is None,
        None => match read_value(global) {
            Some(v) => r.path@ == interpolate_spec(v, home) && r.message is None,
            None => r.path@ == fallback_repository(home) && crate::text::opt_view(r.message)
                == joined_errors(read_error(user), read_error(global)),
        },
    }
}

/// The settings files that were read, and what each gave: the user's
/// `~/.m2/settings.xml` when the home is known, then the installation's
/// `conf/settings.xml` when its directory is known and the user's named no
/// repository.
pub open spec fn resolution_reads<R: Fn(&str) -> Result<Option<String>, String>>(
    read: R,
    home: Option<Seq<char>>,
    maven_home: Option<Seq<char>>,
    user: Option<Result<Option<String>, String>>,
    global: Option<Result<Option<String>, String>>,
) -> bool {
    &&& match home {
        None => user is None,
        Some(h) => user matches Some(res) && setting_outcome(read, join_path(h, ".m2/settings.xml"@), res),
    }
    &&& match maven_home {
        Some(m) if read_value(user) is None => global matches Some(res) && setting_outcome(
            read,
            join_path(m, "conf/settings.xml"@),
            res,
        ),
        _ => global is None,
    }
}

/// The local repository: the one the user's `~/.m2/settings.xml` names, else
/// the one the installation's `conf/settings.xml` names (interpolated against
/// the home directory), else `~/.m2/repository`, with the errors met on the
/// way joined by `; `.
pub fn resolve_maven_local_repository<R: Fn(&str) -> Result<Option<String>, String>>(
    home: Option<&str>,
    maven_home: Option<&str>,
    read_file: &R,
) -> (r: MavenLocalRepositoryResolution)
    requires
        forall|a: &str| read_file.requires((a,)),
    ensures
        exists|user: Option<Result<Option<String>, String>>, global: Option<Result<Option<String>, String>>|
            #[trigger] resolution_reads(
                *read_file,
                crate::cargo::opt_str_view(home),
                crate::cargo::opt_str_view(maven_home),
                user,
                global,
            ) && resolution_spec(crate::cargo::opt_str_view(home), user, global, r),
{
    let ghost hv = crate::cargo::opt_str_view(home);
    let ghost mv = crate::cargo::opt_str_view(maven_home);
    proof {
        reveal_strlit(".m2/settings.xml");
        reveal_strlit("conf/settings.xml");
    }
    let mut user: Option<Result<Option<String>, String>> = None;
    if let Some(h) = home {
        let user_settings = join(h, ".m2/settings.xml");
        let res = read_maven_local_repository_setting(user_settings.as_str(), read_file);
        user = Some(res);
    }
    let ghost user_seen = user;
    let mut user_error: Option<String> = None;
    match user {
        Some(Ok(Some(value))) => {
            let path = interpolate_maven_path(value.as_str(), home);
            let r = MavenLocalRepositoryResolution { path, message: None };
            assert(resolution_reads(*read_file, hv, mv, user_seen, None));
            return r;
        },
        Some(Err(message)) => {
            user_error = Some(message);
        },
        _ => {},
    }
    let mut global: Option<Result<Option<String>, String>> = None;
    if let Some(m) = maven_home {
        let global_settings = join(m, "conf/settings.xml");
        let res = read_maven_local_repository_setting(global_settings.as_str(), read_file);
        global = Some(res);
    }
    let ghost global_seen = global;
    assert(resolution_reads(*read_file, hv, mv, user_seen, global_seen));
    let mut global_error: Option<String> = None;
    match global {
        Some(Ok(Some(value))) => {
            let path = interpolate_maven_path(value.as_str(), home);
            return MavenLocalRepositoryResolution { path, message: None };
        },
        Some(Err(message)) => {
            global_error = Some(message);
        },
        _ => {},
    }
    let path = match home {
        Some(h) => join(h, ".m2/repository"),
        None => owned(".m2/repository"),
    };
    proof {
        reveal_strlit(".m2/repository");
        reveal_strlit("; ");
    }
    let message = match (user_error, global_error) {
        (Some(a), Some(b)) => {
            let mut joined = a;
            push_str(&mut joined, "; ");
            push_str(&mut joined, b.as_str());
            Some(joined)
        },
        (Some(a), None) => Some(a),
        (None, Some(b)) => Some(b),
        (None, None) => None,
    };
    MavenLocalRepositoryResolution { path, message }
}

/// The one command a Maven scan runs.
pub open spec fn maven_scan_command(program: Seq<char>, args: Seq<Seq<char>>, timeout: u64) -> bool {
    program == "mvn"@ && args == seq!["--version"@] && timeout == 5
}

/// `walk` answered `out` for the repository at `root` and these limits.
pub open spec fn walked<W: Fn(&str, &MavenScanLimits) -> MavenRepositoryWalk>(
    walk: W,
    root: Seq<char>,
    limits: MavenScanLimits,
    out: MavenRepositoryWalk,
) -> bool {
    exists|p: &str, l: &MavenScanLimits| p@ == root && *l == limits && #[trigger] walk.ensures((p, l), out)
}

/// What a Maven scan reports once `mvn --version` answered `stdout`, with
/// the settings read as `user` and `global`, the local repository resolved
/// as `res`, and the walk over it answered `w`: the repository (with a
/// parse failure for the errors met), and the summary of the walk.
pub open spec fn maven_found_with<
    R: Fn(&str) -> Result<Option<String>, String>,
    W: Fn(&str, &MavenScanLimits) -> MavenRepositoryWalk,
>(
    r: ManagerSnapshot,
    stdout: Seq<char>,
    home: Option<Seq<char>>,
    read: R,
    walk: W,
    res: MavenLocalRepositoryResolution,
    user: Option<Result<Option<String>, String>>,
    global: Option<Result<Option<String>, String>>,
    w: MavenRepositoryWalk,
    keys: Seq<(Seq<char>, Seq<char>)>,
) -> bool {
    &&& resolution_reads(read, home, maven_home_fold(lines(stdout)), user, global)
    &&& resolution_spec(home, user, global, res)
    &&& r.paths@.len() == 1
    &&& r.paths@[0].label@ == "Local repository"@
    &&& r.paths@[0].kind == PathKind::LocalRepository
    &&& r.paths@[0].path@ == res.path@
    &&& match res.message {
        None => r.failures@.len() == 0,
        Some(m) => r.failures@.len() == 1 && r.failures@[0].kind == FailureKind::ParseFailure
            && r.failures@[0].message@ == m@ && r.failures@[0].command is None
            && r.failures@[0].stdout@.len() == 0 && r.failures@[0].stderr@.len() == 0,
    }
    &&& walked(walk, res.path@, MavenScanLimits { max_scan_ms: 5000, max_version_dirs: 100000, max_rows_returned: 2000 }, w)
    &&& artifact_keys(w.version_dirs@, keys)
    &&& r.maven matches Some(h) && repository_summary(
        MavenRepositoryScan { packages: r.packages, health: h },
        res.path@,
        w,
        2000,
        keys,
    )
}

/// What a Maven scan reports once `mvn --version` answered `stdout`.
pub open spec fn maven_found<
    R: Fn(&str) -> Result<Option<String>, String>,
    W: Fn(&str, &MavenScanLimits) -> MavenRepositoryWalk,
>(r: ManagerSnapshot, stdout: Seq<char>, home: Option<Seq<char>>, read: R, walk: W) -> bool {
    exists|res: MavenLocalRepositoryResolution,
        user: Option<Result<Option<String>, String>>,
        global: Option<Result<Option<String>, String>>,
        w: MavenRepositoryWalk,
        keys: Seq<(Seq<char>, Seq<char>)>,
    | #[trigger] maven_found_with(r, stdout, home, read, walk, res, user, global, w, keys)
}

/// Scans Maven: its version and home from `mvn --version`, the local
/// repository (from the settings files `read_file` reads), the purge
/// commands it offers, and the summary of what `walk_repository` finds in
/// the repository. Nothing more is done once `mvn --version` fails.
pub fn scan_maven_with_runner<F, R, W>(runner: &F, home: Option<&str>, read_file: &R, walk_repository: &W) -> (r:
    ManagerSnapshot) where
    F: Fn(&str, &[String], u64) -> Result<CommandRun, CommandFailure>,
    R: Fn(&str) -> Result<Option<String>, String>,
    W: Fn(&str, &MavenScanLimits) -> MavenRepositoryWalk,

    requires
        forall|p: &str, a: &[String], t: u64|
            maven_scan_command(p@, views(a@), t) ==> #[trigger] runner.requires((p, a, t)),
        forall|a: &str| read_file.requires((a,)),
        forall|p: &str, l: &MavenScanLimits| walk_repository.requires((p, l)),
    ensures
        r.id == ManagerId::Maven,
        r.label@ == "Maven"@,
        r.status == finished_status(r),
        r.version is None ==> r.commands@.len() == 0 && r.packages@.len() == 0 && r.paths@.len() == 0
            && r.maven is None && r.failures@.len() == 1 && exists|out: Result<CommandRun, CommandFailure>|
            #[trigger] answered_run(*runner, "mvn"@, seq!["--version"@], 5, out) && recorded_failure(
                r.failures@[0],
                out,
                "Maven version probe failed"@,
            ),
        r.version matches Some(v) ==> (exists|run: CommandRun|
            #[trigger] answered_run(*runner, "mvn"@, seq!["--version"@], 5, Ok(run))
                && run.exit_code == Some(0i32) && v@ == maven_version_spec(run.stdout@) && maven_found(
                r,
                run.stdout@,
                crate::cargo::opt_str_view(home),
                *read_file,
                *walk_repository,
            )) && r.commands@.len() == 3 && envelope_is(r.commands@[0], "mvn"@, seq!["--version"@], 5000)
            && envelope_is(
            r.commands@[1],
            "mvn"@,
            seq!["dependency:purge-local-repository"@, "-DreResolve=false"@],
            0,
        ) && envelope_is(
            r.commands@[2],
            "mvn"@,
            seq!["dependency:purge-local-repository"@, "-DactTransitively=false"@, "-DreResolve=false"@],
            0,
        ),
        r.homebrew is None && r.pip is None && r.docker is None,
{
    let mut snapshot = empty_snapshot(ManagerId::Maven, "Maven");
    proof {
        reveal_strlit("mvn");
        reveal_strlit("--version");
    }
    assert(str_views(["--version"]@) =~= seq!["--version"@]);
    let out = crate::command::ask_runner(runner, "mvn", &["--version"], 5);
    let ghost answer = out;
    let version_run = match out {
        Ok(run) => {
            if run.exit_code == Some(0i32) {
                run
            } else {
                let f = command_failure(FailureKind::CommandFailed, "Maven version probe failed", run);
                snapshot.failures.push(f);
                assert(recorded_failure(snapshot.failures@[0], answer, "Maven version probe failed"@));
                return finish(snapshot);
            }
        },
        Err(failure) => {
            snapshot.failures.push(failure);
            assert(recorded_failure(snapshot.failures@[0], answer, "Maven version probe failed"@));
            return finish(snapshot);
        },
    };
    push_command(&mut snapshot, "mvn", &["--version"], 5);
    snapshot.version = Some(parse_maven_version(version_run.stdout.as_str()));
    let maven_home = parse_maven_home(version_run.stdout.as_str());
    let mh: Option<&str> = match &maven_home {
        Some(m) => Some(m.as_str()),
        None => None,
    };
    assert(crate::cargo::opt_str_view(mh) == maven_home_fold(lines(version_run.stdout@)));
    let resolution = resolve_maven_local_repository(home, mh, read_file);
    if let Some(message) = &resolution.message {
        snapshot.failures.push(
            CommandFailure {
                kind: FailureKind::ParseFailure,
                message: message.clone(),
                command: None,
                stdout: String::new(),
                stderr: String::new(),
            },
        );
    }
    snapshot.paths.push(path_info("Local repository", PathKind::LocalRepository, resolution.path.clone()));
    snapshot.commands.push(
        envelope("mvn", &["dependency:purge-local-repository", "-DreResolve=false"], 0),
    );
    snapshot.commands.push(
        envelope(
            "mvn",
            &["dependency:purge-local-repository", "-DactTransitively=false", "-DreResolve=false"],
            0,
        ),
    );
    assert(str_views(["dependency:purge-local-repository", "-DreResolve=false"]@) =~= seq![
        "dependency:purge-local-repository"@,
        "-DreResolve=false"@,
    ]);
    assert(str_views(
        ["dependency:purge-local-repository", "-DactTransitively=false", "-DreResolve=false"]@,
    ) =~= seq![
        "dependency:purge-local-repository"@,
        "-DactTransitively=false"@,
        "-DreResolve=false"@,
    ]);
    let limits = MavenScanLimits::default();
    let root = resolution.path.as_str();
    let walk = walk_repository(root, &limits);
    assert(walked(*walk_repository, resolution.path@, limits, walk));
    let ghost w = walk;
    let scan = summarize_maven_repository(root, walk, &limits);
    snapshot.packages = scan.packages;
    snapshot.maven = Some(scan.health);
    let r = finish(snapshot);
    proof {
        let run = version_run;
        assert(answered_run(*runner, "mvn"@, seq!["--version"@], 5, Ok(run)));
        let keys = choose|keys: Seq<(Seq<char>, Seq<char>)>|
            artifact_keys(w.version_dirs@, keys) && #[trigger] repository_summary(
                scan,
                resolution.path@,
                w,
                2000,
                keys,
            );
        assert(scan == MavenRepositoryScan { packages: r.packages, health: r.maven.unwrap() });
        let (user, global) = choose|
            user: Option<Result<Option<String>, String>>,
            global: Option<Result<Option<String>, String>>,
        |
            #[trigger] resolution_reads(
                *read_file,
                crate::cargo::opt_str_view(home),
                crate::cargo::opt_str_view(mh),
                user,
                global,
            ) && resolution_spec(crate::cargo::opt_str_view(home), user, global, resolution);
        assert(resolution_reads(
            *read_file,
            crate::cargo::opt_str_view(home),
            maven_home_fold(lines(run.stdout@)),
            user,
            global,
        ));
        assert(maven_found_with(
            r,
            run.stdout@,
            crate::cargo::opt_str_view(home),
            *read_file,
            *walk_repository,
            resolution,
            user,
            global,
            w,
            keys,
        ));
    }
    r
}

} // verus!
