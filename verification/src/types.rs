//! The values that scans, cleanups and maintenance runs report.
use vstd::prelude::*;

verus! {

/// A structured command: a program, its arguments, the preview shown to the
/// user and the time budget it runs under.
#[derive(Debug, Clone)]
pub struct CommandEnvelope {
    pub program: String,
    pub args: Vec<String>,
    pub preview: String,
    pub timeout_ms: u64,
}

/// What one run of a command produced.
#[derive(Debug, Clone)]
pub struct CommandRun {
    pub envelope: CommandEnvelope,
    pub stdout: String,
    pub stderr: String,
    pub exit_code: Option<i32>,
    pub duration_ms: u128,
}

/// Why a command or a step did not give a usable result.
#[derive(Debug, Clone)]
pub struct CommandFailure {
    pub kind: FailureKind,
    pub message: String,
    pub command: Option<CommandEnvelope>,
    pub stdout: String,
    pub stderr: String,
}

#[derive(Debug, Clone, Copy, PartialEq, Eq, Structural)]
pub enum FailureKind {
    MissingBinary,
    MissingPath,
    CommandFailed,
    ParseFailure,
    PermissionDenied,
    Timeout,
}

#[derive(Debug, Clone)]
pub struct PackageRow {
    pub name: String,
    pub version: String,
    pub path: Option<String>,
    pub source: String,
    pub kind: PackageKind,
    pub signals: Vec<PackageSignal>,
    pub actions: Vec<CommandEnvelope>,
}

#[derive(Debug, Clone, Copy, PartialEq, Eq, Structural)]
pub enum PackageKind {
    Generic,
    Formula,
    Cask,
    MavenArtifact,
    PythonDistribution,
    DockerImage,
    DockerContainer,
    DockerVolume,
    BunPackage,
    UvTool,
    UvPython,
}

#[derive(Debug, Clone, Copy, PartialEq, Eq, Structural)]
pub enum PackageSignal {
    Outdated,
    Leaf,
    DuplicateVersions,
    Snapshot,
    Editable,
    UserSite,
    DirectUrl,
    Dangling,
    Unused,
    Running,
    Stopped,
    Current,
}

#[derive(Debug, Clone)]
pub struct PathInfo {
    pub label: String,
    pub kind: PathKind,
    pub path: String,
    pub size: DiskUsage,
}

#[derive(Debug, Clone, Copy, PartialEq, Eq, Structural)]
pub enum PathKind {
    Cache,
    NpxCache,
    Store,
    GlobalModules,
    GlobalDir,
    NvmDir,
    NvmNodeVersions,
    CargoBin,
    CargoRegistryCache,
    CargoRegistrySource,
    CargoGitCache,
    CargoGitCheckouts,
    DockerConfig,
    DockerBuildx,
    DockerDesktopData,
    BunInstall,
    BunCache,
    UvTools,
    UvPythonInstallations,
    UvCache,
    Prefix,
    Cellar,
    Caskroom,
    LocalRepository,
    SitePackages,
    UserSite,
}

#[derive(Debug, Clone)]
pub struct DiskUsage {
    pub status: DiskUsageStatus,
    pub bytes: Option<u64>,
    pub human: Option<String>,
    pub files: u64,
    pub directories: u64,
    pub skipped: u64,
    pub message: Option<String>,
}

#[derive(Debug, Clone, Copy, PartialEq, Eq, Structural)]
pub enum DiskUsageStatus {
    Pending,
    Ready,
    Missing,
    PermissionDenied,
    Error,
}

/// Everything one scan of one manager observed.
#[derive(Debug, Clone)]
pub struct ManagerSnapshot {
    pub id: ManagerId,
    pub label: String,
    pub status: ManagerStatus,
    pub version: Option<String>,
    pub packages: Vec<PackageRow>,
    pub paths: Vec<PathInfo>,
    pub commands: Vec<CommandEnvelope>,
    pub failures: Vec<CommandFailure>,
    pub unsupported_reason: Option<String>,
    pub homebrew: Option<HomebrewMaintenance>,
    pub maven: Option<MavenRepositoryHealth>,
    pub pip: Option<PipEnvironmentHealth>,
    pub docker: Option<DockerResourceHealth>,
}

#[derive(Debug, Clone)]
pub struct HomebrewMaintenance {
    pub formula_count: usize,
    pub cask_count: usize,
    pub outdated_count: usize,
    pub leaf_count: usize,
    pub outdated: Vec<String>,
    pub leaves: Vec<String>,
    pub cleanup: HomebrewCleanupPreview,
}

#[derive(Debug, Clone)]
pub struct HomebrewCleanupPreview {
    pub status: AsyncStatus,
    pub command: CommandEnvelope,
    pub raw_output: String,
    pub reclaimed_bytes: Option<u64>,
    pub reclaimed_human: Option<String>,
    pub message: Option<String>,
    pub failure: Option<CommandFailure>,
}

#[derive(Debug, Clone)]
pub struct MavenRepositoryHealth {
    pub local_repository: String,
    pub artifact_count: usize,
    pub version_count: usize,
    pub snapshot_count: usize,
    pub duplicate_artifact_count: usize,
    pub top_duplicate_artifacts: Vec<MavenDuplicateArtifact>,
    pub repository_scan_status: RepositoryScanStatus,
}

#[derive(Debug, Clone)]
pub struct MavenDuplicateArtifact {
    pub coordinate: String,
    pub version_count: usize,
    pub versions: Vec<String>,
}

#[derive(Debug, Clone)]
pub struct RepositoryScanStatus {
    pub partial: bool,
    pub scanned_version_dirs: usize,
    pub skipped: usize,
    pub message: Option<String>,
}

#[derive(Debug, Clone)]
pub struct PipEnvironmentHealth {
    pub python_version: String,
    pub python_executable: String,
    pub pip_version: String,
    pub environment_kind: PipEnvironmentKind,
    pub site_packages: Option<String>,
    pub user_site: Option<String>,
    pub installed_count: usize,
    pub outdated_count: usize,
    pub editable_count: usize,
    pub direct_url_count: usize,
    pub cache: PipCacheInfo,
    pub inspect_status: AsyncStatus,
    pub outdated_status: AsyncStatus,
    pub outdated_message: Option<String>,
}

#[derive(Debug, Clone, Copy, PartialEq, Eq, Structural)]
pub enum PipEnvironmentKind {
    System,
    User,
    VirtualEnv,
    Unknown,
}

#[derive(Debug, Clone)]
pub struct PipCacheInfo {
    pub dir: Option<String>,
    pub raw_info: String,
}

#[derive(Debug, Clone)]
pub struct PipOutdatedPreview {
    pub status: AsyncStatus,
    pub command: CommandEnvelope,
    pub outdated: Vec<String>,
    pub message: Option<String>,
    pub failure: Option<CommandFailure>,
}

#[derive(Debug, Clone)]
pub struct DockerResourceHealth {
    pub image_count: usize,
    pub container_count: usize,
    pub running_container_count: usize,
    pub volume_count: usize,
    pub dangling_image_count: usize,
    pub unused_image_count: usize,
    pub disk_usage: Vec<DockerDiskUsageRow>,
    pub disk_usage_status: AsyncStatus,
    pub disk_usage_message: Option<String>,
}

#[derive(Debug, Clone)]
pub struct DockerDiskUsageRow {
    pub resource_type: String,
    pub total_count: String,
    pub active_count: String,
    pub size: String,
    pub reclaimable: String,
}

#[derive(Debug, Clone, Copy, PartialEq, Eq, Structural)]
pub enum AsyncStatus {
    Pending,
    Ready,
    Failed,
}

#[derive(Debug, Clone, Copy, PartialEq, Eq, Structural)]
pub enum ManagerId {
    Npm,
    Pnpm,
    Yarn,
    Nvm,
    Homebrew,
    Maven,
    Pip,
    Cargo,
    Docker,
    Bun,
    Uv,
}

#[derive(Debug, Clone, Copy, PartialEq, Eq, Structural)]
pub enum ManagerStatus {
    Ready,
    Missing,
    Unsupported,
    Partial,
    Failed,
}

#[derive(Debug, Clone)]
pub struct ManagerScanSnapshot {
    pub scan_duration_ms: u128,
    pub manager: ManagerSnapshot,
}

/// What a maintenance command (a global uninstall) reported.
#[derive(Debug, Clone)]
pub struct MaintenanceRunPreview {
    pub status: AsyncStatus,
    pub command: CommandEnvelope,
    pub stdout: String,
    pub stderr: String,
    pub message: Option<String>,
    pub failure: Option<CommandFailure>,
}

#[derive(Debug, Clone)]
pub enum NpmMaintenanceOperation {
    UninstallGlobalPackage { package_name: String },
}

#[derive(Debug, Clone)]
pub enum PnpmMaintenanceOperation {
    UninstallGlobalPackage { package_name: String },
}

/// The result of running one manager's cleanup plan.
#[derive(Debug, Clone)]
pub struct CacheCleanupRun {
    pub manager: ManagerId,
    pub outcome: CleanupOutcome,
    pub steps: Vec<CleanupStepResult>,
    pub message: Option<String>,
}

#[derive(Debug, Clone, Copy, PartialEq, Eq, Structural)]
pub enum CleanupOutcome {
    Succeeded,
    PartiallyCompleted,
    Failed,
    NoPlan,
}

#[derive(Debug, Clone)]
pub struct CleanupStepResult {
    pub label: String,
    pub command: Option<CommandEnvelope>,
    pub state: CleanupStepState,
    pub stdout: String,
    pub stderr: String,
    pub failure: Option<CommandFailure>,
}

#[derive(Debug, Clone, Copy, PartialEq, Eq, Structural)]
pub enum CleanupStepState {
    Succeeded,
    Failed,
    Skipped,
}

} // verus!
