//! The settings of one run: validated identifiers and a resolved path, or the first
//! defect among the raw values.

use vstd::prelude::*;
use vstd::string::StringExecFns;
use crate::identifier::{
    checked_label, normalize_repo_identifier, normalized, validate_label, validation_message, ReleaseLabel,
    RepoIdentifier, RepoName, ValidationError, ValidationFault,
};
use crate::path::{
    path_from_str, path_message, probe_views, resolution, PathError, PathFault, ResolvedPath,
};
use crate::text::{slice_text, string_text};

verus! {

/// The keys that the settings are read from.
#[derive(Clone, Copy, Debug, PartialEq, Eq, Structural)]
pub enum SettingsKey {
    SourceRepo,
    MigrationNotesRepo,
    MigrationNotesLocalPath,
    ProjectPrefix,
}

/// The name under which a key stands in the configuration.
pub open spec fn key_name(key: SettingsKey) -> Seq<char> {
    match key {
        SettingsKey::SourceRepo => "source_repo"@,
        SettingsKey::MigrationNotesRepo => "migration_notes_repo"@,
        SettingsKey::MigrationNotesLocalPath => "migration_notes_local_path"@,
        SettingsKey::ProjectPrefix => "project_prefix"@,
    }
}

impl SettingsKey {
    pub fn name(&self) -> (s: &'static str)
        ensures
            s@ == key_name(*self),
    {
        match self {
            SettingsKey::SourceRepo => "source_repo",
            SettingsKey::MigrationNotesRepo => "migration_notes_repo",
            SettingsKey::MigrationNotesLocalPath => "migration_notes_local_path",
            SettingsKey::ProjectPrefix => "project_prefix",
        }
    }
}

/// The values of the four keys as they were read, each absent or present.
#[derive(Debug)]
pub struct RawSettings {
    pub source_repo: Option<String>,
    pub migration_notes_repo: Option<String>,
    pub migration_notes_local_path: Option<String>,
    pub project_prefix: Option<String>,
}

/// What a [`RawSettings`] stands for.
pub struct RawSettingsView {
    pub source_repo: Option<Seq<char>>,
    pub migration_notes_repo: Option<Seq<char>>,
    pub migration_notes_local_path: Option<Seq<char>>,
    pub project_prefix: Option<Seq<char>>,
}

impl View for RawSettings {
    type V = RawSettingsView;

    open spec fn view(&self) -> RawSettingsView {
        RawSettingsView {
            source_repo: string_text(self.source_repo),
            migration_notes_repo: string_text(self.migration_notes_repo),
            migration_notes_local_path: string_text(self.migration_notes_local_path),
            project_prefix: string_text(self.project_prefix),
        }
    }
}

/// The settings of one run.
#[derive(Debug)]
pub struct Settings {
    /// The repository whose pull requests are read.
    pub source_repo: RepoIdentifier,
    /// The repository that receives the migration notes.
    pub migration_notes_repo: RepoIdentifier,
    /// Where the working copy of the notes repository lies.
    pub migration_notes_local_path: ResolvedPath,
    /// The folder within the working copy under which the releases lie, if any.
    pub project_prefix: Option<ReleaseLabel>,
}

/// What a [`Settings`] stands for.
pub struct SettingsView {
    pub source_repo: RepoName,
    pub migration_notes_repo: RepoName,
    pub migration_notes_local_path: Seq<char>,
    pub project_prefix: Option<Seq<char>>,
}

/// The text of an optional label.
pub open spec fn label_text(o: Option<ReleaseLabel>) -> Option<Seq<char>> {
    match o {
        Some(l) => Some(l@),
        None => None,
    }
}

impl View for Settings {
    type V = SettingsView;

    open spec fn view(&self) -> SettingsView {
        SettingsView {
            source_repo: self.source_repo@,
            migration_notes_repo: self.migration_notes_repo@,
            migration_notes_local_path: self.migration_notes_local_path@,
            project_prefix: label_text(self.project_prefix),
        }
    }
}

impl Clone for Settings {
    fn clone(&self) -> (r: Settings)
        ensures
            r@ == self@,
    {
        Settings {
            source_repo: self.source_repo.clone(),
            migration_notes_repo: self.migration_notes_repo.clone(),
            migration_notes_local_path: self.migration_notes_local_path.clone(),
            project_prefix: match &self.project_prefix {
                Some(l) => Some(l.clone()),
                None => None,
            },
        }
    }
}

/// What a [`SettingsError`] stands for.
pub enum SettingsFault {
    MissingRequiredKey(SettingsKey),
    Invalid(ValidationFault),
    Path(PathFault),
}

/// The first defect of the raw values.
#[derive(Debug)]
pub enum SettingsError {
    /// A required key has no value.
    MissingRequiredKey(SettingsKey),
    /// An identifier or the project prefix does not follow its grammar.
    Invalid(ValidationError),
    /// The local path cannot be resolved.
    Path(PathError),
}

impl View for SettingsError {
    type V = SettingsFault;

    open spec fn view(&self) -> SettingsFault {
        match self {
            SettingsError::MissingRequiredKey(k) => SettingsFault::MissingRequiredKey(*k),
            SettingsError::Invalid(e) => SettingsFault::Invalid(e@),
            SettingsError::Path(e) => SettingsFault::Path(e@),
        }
    }
}

/// What a settings error tells the user: the key that is missing, or what the underlying
/// error tells.
pub open spec fn settings_message(e: SettingsFault) -> Seq<char> {
    match e {
        SettingsFault::MissingRequiredKey(k) => "No "@ + key_name(k) + " specified"@,
        SettingsFault::Invalid(v) => validation_message(v),
        SettingsFault::Path(p) => path_message(p),
    }
}

impl SettingsError {
    pub fn message(&self) -> (m: String)
        ensures
            m@ == settings_message(self@),
    {
        match self {
            SettingsError::MissingRequiredKey(k) => {
                let mut m = String::from_str("No ");
                m.append(k.name());
                m.append(" specified");
                m
            },
            SettingsError::Invalid(e) => e.message(),
            SettingsError::Path(e) => e.message(),
        }
    }
}

/// What assembly makes of the raw values. The keys are taken in the order source
/// repository, notes repository, local path, project prefix, and the first one that is
/// missing or invalid decides the error.
pub open spec fn assembled(
    raw: RawSettingsView,
    base_dir: Option<Seq<char>>,
    probes: Seq<Option<Seq<char>>>,
) -> Result<SettingsView, SettingsFault> {
    if raw.source_repo is None {
        Err(SettingsFault::MissingRequiredKey(SettingsKey::SourceRepo))
    } else if normalized(raw.source_repo->0) is Err {
        Err(SettingsFault::Invalid(normalized(raw.source_repo->0)->Err_0))
    } else if raw.migration_notes_repo is None {
        Err(SettingsFault::MissingRequiredKey(SettingsKey::MigrationNotesRepo))
    } else if normalized(raw.migration_notes_repo->0) is Err {
        Err(SettingsFault::Invalid(normalized(raw.migration_notes_repo->0)->Err_0))
    } else if raw.migration_notes_local_path is None {
        Err(SettingsFault::MissingRequiredKey(SettingsKey::MigrationNotesLocalPath))
    } else if resolution(raw.migration_notes_local_path->0, base_dir, probes) is Err {
        Err(
            SettingsFault::Path(
                resolution(raw.migration_notes_local_path->0, base_dir, probes)->Err_0,
            ),
        )
    } else if raw.project_prefix is Some && checked_label(raw.project_prefix->0) is Err {
        Err(SettingsFault::Invalid(checked_label(raw.project_prefix->0)->Err_0))
    } else {
        Ok(
            SettingsView {
                source_repo: normalized(raw.source_repo->0)->Ok_0,
                migration_notes_repo: normalized(raw.migration_notes_repo->0)->Ok_0,
                migration_notes_local_path: resolution(
                    raw.migration_notes_local_path->0,
                    base_dir,
                    probes,
                )->Ok_0,
                project_prefix: raw.project_prefix,
            },
        )
    }
}

/// Assembles the settings from the raw values, all or nothing.
///
/// `base_dir` is the directory that a relative local path is taken from, and `probes` is
/// what the caller found of the ancestors of the local path, as [`path_from_str`] reads it.
pub fn get_settings(raw: &RawSettings, base_dir: Option<&str>, probes: &Vec<Option<String>>) -> (r:
    Result<Settings, SettingsError>)
    ensures
        r matches Ok(s) ==> assembled(raw@, slice_text(base_dir), probe_views(probes@)) == Ok::<
            SettingsView,
            SettingsFault,
        >(s@),
        r matches Err(e) ==> assembled(raw@, slice_text(base_dir), probe_views(probes@)) == Err::<
            SettingsView,
            SettingsFault,
        >(e@),
{
    let source_repo = match &raw.source_repo {
        None => {
            return Err(SettingsError::MissingRequiredKey(SettingsKey::SourceRepo));
        },
        Some(value) => match normalize_repo_identifier(value.as_str()) {
            Ok(id) => id,
            Err(e) => {
                return Err(SettingsError::Invalid(e));
            },
        },
    };
    let migration_notes_repo = match &raw.migration_notes_repo {
        None => {
            return Err(SettingsError::MissingRequiredKey(SettingsKey::MigrationNotesRepo));
        },
        Some(value) => match normalize_repo_identifier(value.as_str()) {
            Ok(id) => id,
            Err(e) => {
                return Err(SettingsError::Invalid(e));
            },
        },
    };
    let migration_notes_local_path = match &raw.migration_notes_local_path {
        None => {
            return Err(SettingsError::MissingRequiredKey(SettingsKey::MigrationNotesLocalPath));
        },
        Some(value) => match path_from_str(value.as_str(), base_dir, probes) {
            Ok(p) => p,
            Err(e) => {
                return Err(SettingsError::Path(e));
            },
        },
    };
    let project_prefix = match &raw.project_prefix {
        None => None,
        Some(value) => match validate_label(value.as_str()) {
            Ok(l) => Some(l),
            Err(e) => {
                return Err(SettingsError::Invalid(e));
            },
        },
    };
    Ok(Settings { source_repo, migration_notes_repo, migration_notes_local_path, project_prefix })
}

} // verus!
