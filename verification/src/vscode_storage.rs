//! The editor's workspace storage: which project each storage directory
//! belongs to (from its `workspace.json` mapping), whether that project is
//! local and still there, and how a scan of the storage directory is summed
//! up.
use crate::json::{parse_json, JsonValue, JsonView};
use crate::path::file_name;
use crate::scan_support::text_le;
use crate::session_lines::str_field;
use crate::text::{opt_view, owned, push_str, split_on, str_eq, views};
use crate::types::{DiskUsage, DiskUsageStatus};
use vstd::prelude::*;

verus! {

/// How a storage directory names its project.
#[derive(Debug, Clone, Copy, PartialEq, Eq, Structural)]
pub enum WorkspaceKind {
    Folder,
    Workspace,
    Unknown,
}

/// What is known of a project.
#[derive(Debug, Clone, Copy, PartialEq, Eq, Structural)]
pub enum ProjectStatus {
    Available,
    Missing,
    Remote,
    Unknown,
    Unavailable,
}

/// How much a storage directory takes, and whether that was measured in
/// full.
#[derive(Debug, Clone)]
pub struct WorkspaceUsage {
    pub bytes: Option<u64>,
    pub complete: bool,
    pub message: Option<String>,
}

/// One storage directory and its project.
#[derive(Debug, Clone)]
pub struct VscodeWorkspace {
    pub id: String,
    pub name: String,
    pub project_path: Option<String>,
    pub storage_path: String,
    pub kind: WorkspaceKind,
    pub project_status: ProjectStatus,
    pub message: Option<String>,
    pub usage: WorkspaceUsage,
}

/// How the storage directory was found.
#[derive(Debug, Clone, Copy, PartialEq, Eq, Structural)]
pub enum VscodeScanStatus {
    Ready,
    Partial,
    Missing,
}

/// The storage directory and its workspaces.
#[derive(Debug, Clone)]
pub struct VscodeStorageScan {
    pub storage_path: String,
    pub status: VscodeScanStatus,
    pub workspaces: Vec<VscodeWorkspace>,
    pub message: Option<String>,
}

/// What the library reads of a parsed URI: its scheme, its path, its text,
/// and the local path it names when it is a `file` URI that has one.
#[derive(Debug, Clone)]
pub struct UriParts {
    pub scheme: String,
    pub path: String,
    pub text: String,
    pub file_path: Option<String>,
}

/// What `url::Url::parse` makes of a text: its scheme, path, serialization
/// and `to_file_path` (as text), or its error's message.
pub uninterp spec fn uri_parse_result(value: Seq<char>) -> Result<
    (Seq<char>, Seq<char>, Seq<char>, Option<Seq<char>>),
    Seq<char>,
>;

pub open spec fn uri_view(u: UriParts) -> (Seq<char>, Seq<char>, Seq<char>, Option<Seq<char>>) {
    (u.scheme@, u.path@, u.text@, opt_view(u.file_path))
}

/// Parses a URI with `url::Url::parse` and reads its scheme (`scheme`), path
/// (`path`), text (`as_str`) and local path (`to_file_path`, lossily as
/// text). The claim: the result is the one `uri_parse_result` names for the
/// text; nothing more is stated of it.
#[verifier::external_body]
fn parse_uri(value: &str) -> (r: Result<UriParts, String>)
    ensures
        match r {
            Ok(u) => uri_parse_result(value@) == Ok::<(Seq<char>, Seq<char>, Seq<char>, Option<Seq<char>>), Seq<char>>(uri_view(u)),
            Err(e) => uri_parse_result(value@) == Err::<(Seq<char>, Seq<char>, Seq<char>, Option<Seq<char>>), Seq<char>>(e@),
        },
{
    match url::Url::parse(value) {
        Ok(u) => Ok(UriParts {
            scheme: u.scheme().to_string(),
            path: u.path().to_string(),
            text: u.as_str().to_string(),
            file_path: u.to_file_path().ok().map(|p| p.to_string_lossy().into_owned()),
        }),
        Err(e) => Err(e.to_string()),
    }
}

pub open spec fn invalid_mapping_prefix() -> Seq<char> {
    "项目映射格式无效："@
}

pub open spec fn no_location_message() -> Seq<char> {
    "项目映射缺少文件夹或工作区位置"@
}

/// The project location a mapping names: `folder` first, else `workspace`.
/// A mapping that is not JSON, or whose fields are not strings, is invalid;
/// one with neither names no location. Like a derived struct, the mapping
/// may also be an array of the two fields in order.
pub open spec fn mapping_spec(contents: Seq<char>) -> Option<Option<(WorkspaceKind, Seq<char>)>> {
    match crate::json::json_document(contents) {
        None => None,
        Some(v) => mapping_location(v),
    }
}

/// A text or `null` read as an optional text; anything else is refused.
pub open spec fn optional_text(v: JsonView) -> Option<Option<Seq<char>>> {
    match v {
        JsonView::Null => Some(None),
        JsonView::Str(s) => Some(Some(s)),
        _ => None,
    }
}

/// The `folder` and `workspace` fields of a parsed mapping: by name in an
/// object (absent is `null`), or by position in an array of exactly two
/// items.
pub open spec fn mapping_fields(v: JsonView) -> (Option<Option<Seq<char>>>, Option<Option<Seq<char>>>) {
    match v {
        JsonView::Array(items, _) => if items.len() == 2 {
            (optional_text(items[0]), optional_text(items[1]))
        } else {
            (None, None)
        },
        _ => (str_field(v, "folder"@), str_field(v, "workspace"@)),
    }
}

/// The project location a parsed mapping names (see `mapping_spec`).
pub open spec fn mapping_location(v: JsonView) -> Option<Option<(WorkspaceKind, Seq<char>)>> {
    match mapping_fields(v) {
        (Some(Some(f)), Some(_)) => Some(Some((WorkspaceKind::Folder, f))),
        (Some(None), Some(Some(w))) => Some(Some((WorkspaceKind::Workspace, w))),
        (Some(None), Some(None)) => Some(None),
        _ => None,
    }
}

/// The project location of a parsed `workspace.json`, or why it names none.
pub fn mapping_from_json(v: &JsonValue) -> (r: Result<(WorkspaceKind, String), String>)
    ensures
        match mapping_location(v.view()) {
            Some(Some((kind, value))) => r matches Ok(x) && x.0 == kind && x.1@ == value,
            Some(None) => r matches Err(m) && m@ == no_location_message(),
            None => r matches Err(m) && m@ == invalid_mapping_prefix() + "a location is not a string"@,
        },
{
    proof {
        reveal_strlit("项目映射格式无效：");
        reveal_strlit("项目映射缺少文件夹或工作区位置");
        reveal_strlit("a location is not a string");
    }
    let (folder, workspace) = match v {
        JsonValue::Array(items, _) => {
            proof {
                crate::json::lemma_items_view(items@);
            }
            if items.len() == 2 {
                (optional_text_of(&items[0]), optional_text_of(&items[1]))
            } else {
                (None, None)
            }
        },
        _ => (mapping_field(v, "folder"), mapping_field(v, "workspace")),
    };
    match (folder, workspace) {
        (Some(Some(f)), Some(_)) => Ok((WorkspaceKind::Folder, f)),
        (Some(None), Some(Some(w))) => Ok((WorkspaceKind::Workspace, w)),
        (Some(None), Some(None)) => Err(owned("项目映射缺少文件夹或工作区位置")),
        _ => {
            let mut m = owned("项目映射格式无效：");
            push_str(&mut m, "a location is not a string");
            Err(m)
        },
    }
}

/// A text or `null` as an optional text.
fn optional_text_of(v: &JsonValue) -> (r: Option<Option<String>>)
    ensures
        match r {
            None => optional_text(v.view()) is None,
            Some(x) => optional_text(v.view()) == Some(opt_view(x)),
        },
{
    match v {
        JsonValue::Null => Some(None),
        JsonValue::Str(s) => Some(Some(s.clone())),
        _ => None,
    }
}

/// Reads a string field of a mapping.
fn mapping_field(v: &JsonValue, key: &str) -> (r: Option<Option<String>>)
    ensures
        match r {
            None => str_field(v.view(), key@) is None,
            Some(x) => str_field(v.view(), key@) == Some(opt_view(x)),
        },
{
    match v {
        JsonValue::Object(_, _) => match crate::json::json_get(v, key) {
            None => Some(None),
            Some(JsonValue::Null) => Some(None),
            Some(JsonValue::Str(s)) => Some(Some(s.clone())),
            Some(_) => None,
        },
        _ => None,
    }
}

/// The project location a `workspace.json` names, or why it names none.
pub fn workspace_mapping(contents: &str) -> (r: Result<(WorkspaceKind, String), String>)
    ensures
        match mapping_spec(contents@) {
            Some(Some((kind, value))) => r matches Ok(x) && x.0 == kind && x.1@ == value,
            Some(None) => r matches Err(m) && m@ == no_location_message(),
            None => r matches Err(m) && crate::text::starts_with(m@, invalid_mapping_prefix()),
        },
{
    proof {
        reveal_strlit("项目映射格式无效：");
        reveal_strlit("项目映射缺少文件夹或工作区位置");
    }
    let v = match parse_json(contents) {
        Ok(v) => v,
        Err(e) => {
            let mut m = owned("项目映射格式无效：");
            let ghost prefix = m@;
            push_str(&mut m, e.as_str());
            assert(m@.subrange(0, prefix.len() as int) =~= prefix);
            return Err(m);
        },
    };
    let r = mapping_from_json(&v);
    proof {
        if r is Err && mapping_location(v.view()) is None {
            assert((invalid_mapping_prefix() + "a location is not a string"@).subrange(0, invalid_mapping_prefix().len() as int) =~= invalid_mapping_prefix());
        }
    }
    r
}

pub open spec fn invalid_uri_prefix() -> Seq<char> {
    "工作区 URI 无效："@
}

/// The kind and parsed URI of the project a mapping names.
pub fn read_workspace_uri(contents: &str) -> (r: Result<(WorkspaceKind, UriParts), String>)
    ensures
        match mapping_spec(contents@) {
            Some(Some((kind, value))) => match uri_parse_result(value) {
                Ok(u) => r matches Ok(x) && x.0 == kind && uri_view(x.1) == u,
                Err(e) => r matches Err(m) && m@ == invalid_uri_prefix() + e,
            },
            Some(None) => r matches Err(m) && m@ == no_location_message(),
            None => r matches Err(m) && crate::text::starts_with(m@, invalid_mapping_prefix()),
        },
{
    let (kind, value) = match workspace_mapping(contents) {
        Ok(x) => x,
        Err(m) => return Err(m),
    };
    match parse_uri(value.as_str()) {
        Ok(u) => Ok((kind, u)),
        Err(e) => {
            let mut m = owned("工作区 URI 无效：");
            push_str(&mut m, e.as_str());
            Err(m)
        },
    }
}

/// What looking at a project's local path found.
#[derive(Debug, Clone)]
pub enum ProjectProbe {
    Exists,
    NotFound,
    Unreadable(String),
}

/// `probe` answered `out` for a path.
pub open spec fn probed<P: Fn(&str) -> ProjectProbe>(probe: P, path: Seq<char>, out: ProjectProbe) -> bool {
    exists|a: &str| a@ == path && #[trigger] probe.ensures((a,), out)
}

/// The last non-empty segment of a URI path.
pub open spec fn last_segment(segs: Seq<Seq<char>>) -> Option<Seq<char>>
    decreases segs.len(),
{
    if segs.len() == 0 {
        None
    } else if segs.last().len() > 0 {
        Some(segs.last())
    } else {
        last_segment(segs.drop_last())
    }
}

/// The last non-empty segment of a URI path.
pub fn last_path_segment(path: &str) -> (r: Option<String>)
    ensures
        opt_view(r) == last_segment(split_on(path@, '/')),
{
    let cs = crate::text::chars_of(path);
    let ranges = crate::path::split_ranges(&cs, '/');
    let ghost segs = split_on(path@, '/');
    let mut i = ranges.len();
    assert(segs.subrange(0, segs.len() as int) =~= segs);
    while i > 0
        invariant
            i <= ranges@.len(),
            ranges@.len() == segs.len(),
            cs@ == path@,
            segs == split_on(path@, '/'),
            forall|k: int| 0 <= k < ranges@.len() ==> (#[trigger] ranges@[k]).0 <= ranges@[k].1 <= cs@.len(),
            forall|k: int| 0 <= k < ranges@.len() ==> #[trigger] segs[k] == cs@.subrange(
                ranges@[k].0 as int,
                ranges@[k].1 as int,
            ),
            last_segment(segs) == last_segment(segs.subrange(0, i as int)),
        decreases i,
    {
        let (lo, hi) = ranges[i - 1];
        let ghost pre = segs.subrange(0, i as int);
        assert(pre.drop_last() =~= segs.subrange(0, i - 1));
        assert(pre.last() == segs[i - 1]);
        assert(ranges@[i - 1] == (lo, hi));
        assert(segs[i - 1] == cs@.subrange(lo as int, hi as int));
        if hi > lo {
            assert(pre.last().len() > 0);
            assert(last_segment(pre) == Some(pre.last()));
            let piece = crate::text::string_from(&cs, lo, hi);
            assert(piece@ == pre.last());
            assert(segs == split_on(path@, '/'));
            assert(last_segment(segs) == Some(piece@));
            return Some(piece);
        }
        i = i - 1;
    }
    assert(segs.subrange(0, 0) =~= Seq::<Seq<char>>::empty());
    None
}

pub open spec fn no_local_path_message() -> Seq<char> {
    "工作区文件 URI 无法转换为本地路径"@
}

pub open spec fn unconfirmed_prefix() -> Seq<char> {
    "无法确认项目路径状态："@
}

/// What a workspace says of its project after its mapping was read (`read`
/// is the mapping's text, or why it could not be read).
pub open spec fn identified<P: Fn(&str) -> ProjectProbe>(
    old: VscodeWorkspace,
    new: VscodeWorkspace,
    read: Result<Seq<char>, Seq<char>>,
    probe: P,
) -> bool {
    let same_usage = new.id == old.id && new.storage_path == old.storage_path && new.usage == old.usage;
    same_usage && match read {
        Err(m) => new.name == old.name && new.project_path == old.project_path && new.kind == old.kind
            && new.project_status == old.project_status && opt_view(new.message) == Some(m),
        Ok(contents) => match mapping_spec(contents) {
            Some(Some((kind, value))) => match uri_parse_result(value) {
                Err(e) => new.name == old.name && new.project_path == old.project_path && new.kind == old.kind
                    && new.project_status == old.project_status && opt_view(new.message) == Some(invalid_uri_prefix() + e),
                Ok(u) => new.kind == kind && if u.0 == "file"@ {
                    match u.3 {
                        None => new.name == old.name && new.project_path == old.project_path
                            && new.project_status == old.project_status && opt_view(new.message) == Some(no_local_path_message()),
                        Some(p) => new.name@ == (match file_name(p) {
                            Some(n) => n,
                            None => p,
                        }) && opt_view(new.project_path) == Some(p) && exists|out: ProjectProbe|
                            #[trigger] probed(probe, p, out) && match out {
                                ProjectProbe::Exists => new.project_status == ProjectStatus::Available
                                    && new.message == old.message,
                                ProjectProbe::NotFound => new.project_status == ProjectStatus::Missing
                                    && new.message == old.message,
                                ProjectProbe::Unreadable(e) => new.project_status == ProjectStatus::Unavailable
                                    && opt_view(new.message) == Some(unconfirmed_prefix() + e@),
                            },
                    }
                } else {
                    &&& new.name@ == (match last_segment(split_on(u.1, '/')) {
                        Some(s) => s,
                        None => old.id@,
                    })
                    &&& opt_view(new.project_path) == Some(u.2)
                    &&& new.project_status == ProjectStatus::Remote
                    &&& new.message == old.message
                },
            },
            Some(None) => new.name == old.name && new.project_path == old.project_path && new.kind == old.kind
                && new.project_status == old.project_status && opt_view(new.message) == Some(no_location_message()),
            None => new.name == old.name && new.project_path == old.project_path && new.kind == old.kind
                && new.project_status == old.project_status && (new.message matches Some(m) && crate::text::starts_with(
                m@,
                invalid_mapping_prefix(),
            )),
        },
    }
}

/// Finds a workspace's project from its mapping: a local `file` project is
/// named by its directory and looked at through `probe`; any other URI is a
/// remote project named by its last path segment.
pub fn identify_workspace<P: Fn(&str) -> ProjectProbe>(
    workspace: &mut VscodeWorkspace,
    mapping: Result<String, String>,
    probe: &P,
)
    requires
        forall|a: &str| probe.requires((a,)),
    ensures
        identified(
            *old(workspace),
            *final(workspace),
            match mapping {
                Ok(c) => Ok::<Seq<char>, Seq<char>>(c@),
                Err(m) => Err::<Seq<char>, Seq<char>>(m@),
            },
            *probe,
        ),
{
    let contents = match mapping {
        Ok(c) => c,
        Err(m) => {
            workspace.message = Some(m);
            return;
        },
    };
    let (kind, uri) = match read_workspace_uri(contents.as_str()) {
        Ok(x) => x,
        Err(m) => {
            workspace.message = Some(m);
            return;
        },
    };
    workspace.kind = kind;
    proof {
        reveal_strlit("file");
    }
    if str_eq(uri.scheme.as_str(), "file") {
        let project_path = match uri.file_path {
            Some(p) => p,
            None => {
                proof {
                    reveal_strlit("工作区文件 URI 无法转换为本地路径");
                }
                workspace.message = Some(owned("工作区文件 URI 无法转换为本地路径"));
                return;
            },
        };
        workspace.name = match crate::path::path_file_name(project_path.as_str()) {
            Some(n) => n,
            None => project_path.clone(),
        };
        workspace.project_path = Some(project_path.clone());
        let out = probe(project_path.as_str());
        assert(probed(*probe, project_path@, out));
        match out {
            ProjectProbe::Exists => workspace.project_status = ProjectStatus::Available,
            ProjectProbe::NotFound => workspace.project_status = ProjectStatus::Missing,
            ProjectProbe::Unreadable(e) => {
                workspace.project_status = ProjectStatus::Unavailable;
                let mut m = owned("无法确认项目路径状态：");
                push_str(&mut m, e.as_str());
                workspace.message = Some(m);
            },
        }
    } else {
        workspace.name = match last_path_segment(uri.path.as_str()) {
            Some(s) => s,
            None => workspace.id.clone(),
        };
        workspace.project_path = Some(uri.text);
        workspace.project_status = ProjectStatus::Remote;
    }
}

/// A storage directory before anything is known of it: named by its id.
pub fn new_workspace(id: String, storage_path: String) -> (r: VscodeWorkspace)
    ensures
        r.id == id && r.name == id && r.storage_path == storage_path,
        r.project_path is None && r.kind == WorkspaceKind::Unknown && r.project_status == ProjectStatus::Unknown,
        r.message is None,
        r.usage.bytes is None && !r.usage.complete && r.usage.message is None,
{

    VscodeWorkspace {
        name: id.clone(),
        id,
        project_path: None,
        storage_path,
        kind: WorkspaceKind::Unknown,
        project_status: ProjectStatus::Unknown,
        message: None,
        usage: WorkspaceUsage { bytes: None, complete: false, message: None },
    }
}

/// A storage directory's usage from its measurement: complete when it was
/// measured in full without a message.
pub fn workspace_usage(usage: DiskUsage) -> (r: WorkspaceUsage)
    ensures
        r.bytes == usage.bytes,
        r.complete == (usage.status == DiskUsageStatus::Ready && usage.message is None),
        r.message == usage.message,
{
    let complete = usage.status == DiskUsageStatus::Ready && usage.message.is_none();
    WorkspaceUsage { bytes: usage.bytes, complete, message: usage.message }
}

/// An empty scan of the storage directory, ready or missing.
pub fn storage_scan(storage_path: String, found: bool) -> (r: VscodeStorageScan)
    ensures
        r.storage_path == storage_path,
        r.status == (if found { VscodeScanStatus::Ready } else { VscodeScanStatus::Missing }),
        r.workspaces@.len() == 0,
        r.message is None,
{
    VscodeStorageScan {
        storage_path,
        status: if found {
            VscodeScanStatus::Ready
        } else {
            VscodeScanStatus::Missing
        },
        workspaces: Vec::new(),
        message: None,
    }
}

/// Adds a workspace: the scan becomes partial unless its usage is complete.
pub fn add_workspace(scan: &mut VscodeStorageScan, workspace: VscodeWorkspace)
    ensures
        final(scan).workspaces@ == old(scan).workspaces@.push(workspace),
        final(scan).status == (if workspace.usage.complete { old(scan).status } else { VscodeScanStatus::Partial }),
        final(scan).message == old(scan).message,
        final(scan).storage_path == old(scan).storage_path,
{
    if !workspace.usage.complete {
        scan.status = VscodeScanStatus::Partial;
    }
    scan.workspaces.push(workspace);
}

/// What a storage entry is, as its metadata shows it (read without
/// following links).
#[derive(Debug, Clone)]
pub enum StorageEntry {
    File,
    Directory,
    Other,
    Unreadable(String),
}

/// Whether a storage entry stands for a workspace: plain files are passed
/// over; everything else is listed.
pub fn storage_entry_listed(entry: &StorageEntry) -> (r: bool)
    ensures
        r == !(entry is File),
{
    match entry {
        StorageEntry::File => false,
        _ => true,
    }
}

/// Notes on a workspace why its storage was not measured: an entry that is
/// not a plain directory is not followed; an unreadable one says why. A
/// plain directory is left as it was.
pub fn note_storage_entry(workspace: &mut VscodeWorkspace, entry: &StorageEntry)
    ensures
        final(workspace).id == old(workspace).id && final(workspace).name == old(workspace).name,
        final(workspace).project_path == old(workspace).project_path,
        final(workspace).storage_path == old(workspace).storage_path,
        final(workspace).kind == old(workspace).kind && final(workspace).project_status == old(workspace).project_status,
        final(workspace).message == old(workspace).message,
        final(workspace).usage.bytes == old(workspace).usage.bytes,
        final(workspace).usage.complete == old(workspace).usage.complete,
        match entry {
            StorageEntry::Other => final(workspace).usage.message matches Some(m) && m@ == "不是普通存储目录，未跟随符号链接"@,
            StorageEntry::Unreadable(e) => final(workspace).usage.message matches Some(m) && m@ == "无法读取存储目录："@ + e@,
            _ => final(workspace).usage.message == old(workspace).usage.message,
        },
{
    proof {
        reveal_strlit("不是普通存储目录，未跟随符号链接");
        reveal_strlit("无法读取存储目录：");
    }
    match entry {
        StorageEntry::Other => {
            workspace.usage.message = Some(owned("不是普通存储目录，未跟随符号链接"));
        },
        StorageEntry::Unreadable(e) => {
            let mut m = owned("无法读取存储目录：");
            push_str(&mut m, e.as_str());
            workspace.usage.message = Some(m);
        },
        _ => {},
    }
}

/// An entry of the storage directory could not be read: the scan becomes
/// partial and keeps the first such error.
pub fn note_unreadable_entry(scan: &mut VscodeStorageScan, error: &str)
    ensures
        final(scan).status == VscodeScanStatus::Partial,
        final(scan).workspaces == old(scan).workspaces,
        old(scan).message is Some ==> final(scan).message == old(scan).message,
        old(scan).message is None ==> (final(scan).message matches Some(m) && m@ == "部分存储目录无法读取："@ + error@),
{
    scan.status = VscodeScanStatus::Partial;
    if scan.message.is_none() {
        let mut m = owned("部分存储目录无法读取：");
        push_str(&mut m, error);
        scan.message = Some(m);
    }
}

pub open spec fn workspace_position(s: Seq<VscodeWorkspace>, x: VscodeWorkspace) -> int
    decreases s.len(),
{
    if s.len() == 0 {
        0
    } else if text_le(s[0].id@, x.id@) {
        1 + workspace_position(s.drop_first(), x)
    } else {
        0
    }
}

/// The workspaces stably sorted by id.
pub open spec fn sorted_by_id(s: Seq<VscodeWorkspace>) -> Seq<VscodeWorkspace>
    decreases s.len(),
{
    if s.len() == 0 {
        seq![]
    } else {
        let t = sorted_by_id(s.drop_last());
        t.insert(workspace_position(t, s.last()), s.last())
    }
}

pub proof fn lemma_workspace_position_bounds(s: Seq<VscodeWorkspace>, x: VscodeWorkspace)
    ensures
        0 <= workspace_position(s, x) <= s.len(),
    decreases s.len(),
{
    if s.len() > 0 && text_le(s[0].id@, x.id@) {
        lemma_workspace_position_bounds(s.drop_first(), x);
    }
}

pub proof fn lemma_sorted_by_id_len(s: Seq<VscodeWorkspace>)
    ensures
        sorted_by_id(s).len() == s.len(),
    decreases s.len(),
{
    if s.len() > 0 {
        lemma_sorted_by_id_len(s.drop_last());
        lemma_workspace_position_bounds(sorted_by_id(s.drop_last()), s.last());
    }
}

/// The scan with its workspaces sorted by id.
pub fn finish_storage_scan(scan: VscodeStorageScan) -> (r: VscodeStorageScan)
    ensures
        r.workspaces@ == sorted_by_id(scan.workspaces@),
        r.status == scan.status && r.message == scan.message && r.storage_path == scan.storage_path,
{
    let VscodeStorageScan { storage_path, status, workspaces, message } = scan;
    let ghost all = workspaces@;
    let n = workspaces.len();
    let mut input = workspaces;
    let mut out: Vec<VscodeWorkspace> = Vec::new();
    let mut i: usize = 0;
    assert(all.subrange(0, 0) =~= Seq::<VscodeWorkspace>::empty());
    while i < n
        invariant
            i <= n,
            n == all.len(),
            input@ == all.subrange(i as int, n as int),
            out@ == sorted_by_id(all.subrange(0, i as int)),
        decreases n - i,
    {
        let x = input.remove(0);
        assert(x == all[i as int]);
        assert(input@ =~= all.subrange(i + 1, n as int));
        let ghost prev = out@;
        proof {
            lemma_sorted_by_id_len(all.subrange(0, i as int));
            lemma_workspace_position_bounds(prev, x);
            assert(prev.subrange(0, prev.len() as int) == prev);
        }
        let mut p: usize = 0;
        while p < out.len() && crate::scan_support::str_le(out[p].id.as_str(), x.id.as_str())
            invariant
                p <= out@.len(),
                out@ == prev,
                workspace_position(prev, x) == p + workspace_position(prev.subrange(p as int, prev.len() as int), x),
            decreases out@.len() - p,
        {
            assert(prev.subrange(p as int, prev.len() as int).drop_first() == prev.subrange(p + 1, prev.len() as int));
            p = p + 1;
        }
        assert(workspace_position(prev.subrange(p as int, prev.len() as int), x) == 0);
        out.insert(p, x);
        assert(all.subrange(0, i + 1).drop_last() == all.subrange(0, i as int));
        assert(all.subrange(0, i + 1).last() == x);
        i = i + 1;
    }
    assert(all.subrange(0, n as int) == all);
    VscodeStorageScan { storage_path, status, workspaces: out, message }
}

} // verus!
