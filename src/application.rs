//! Applications: the persisted record, the in-memory working form with its
//! session-only fields, and the rules that derive identity-based data from them.

use crate::recency::{never_used, recency_of, UsageRecency};
use crate::text::{
    contains_char, ends_with, eq_ignore_ascii_case, equals_ignoring_ascii_case, has_suffix,
    head_before, split_head,
};
use md5::{Digest, Md5};
use vstd::prelude::*;

verus! {

/// The MD5 digest of the UTF-8 bytes of `s`, in lower-case hexadecimal.
pub uninterp spec fn md5_hex(s: Seq<char>) -> Seq<char>;

/// Relies on md-5's `Md5` (the digest of the bytes handed to `update`),
/// printed by generic-array's `LowerHex` in lower-case hexadecimal: the result
/// depends on the text alone.
#[verifier::external_body]
fn md5_lower_hex(text: &str) -> (r: String)
    ensures
        r@ == md5_hex(text@),
{
    let mut hasher = Md5::new();
    hasher.update(text.as_bytes());
    format!("{:x}", hasher.finalize())
}

/// The icon file name for a hexadecimal digest: its first 16 digits (all of
/// it when shorter) with a `.png` extension.
pub open spec fn icon_name_for_digest(hex: Seq<char>) -> Seq<char> {
    (if hex.len() >= 16 {
        hex.subrange(0, 16)
    } else {
        hex
    }) + ".png"@
}

/// The icon cache file name of an application, keyed by the MD5 digest of its
/// identity.
pub open spec fn icon_name_of(app_id: Seq<char>) -> Seq<char> {
    icon_name_for_digest(md5_hex(app_id))
}

/// The icon file name for the hexadecimal digest `hex`.
pub fn icon_name_from_digest(hex: &str) -> (r: String)
    ensures
        r@ == icon_name_for_digest(hex@),
{
    let n = hex.unicode_len();
    let head = if n >= 16 {
        String::from_str(hex.substring_char(0, 16))
    } else {
        String::from_str(hex)
    };
    head.concat(".png")
}

/// A row of the application table.
#[derive(Debug)]
pub struct ApplicationRepositoryRecord {
    /// Stable identity; the primary key.
    pub app_id: String,
    /// Display name.
    pub name: String,
    /// Launch target: a file path, or a package identifier.
    pub path: String,
    /// Number of recorded launches.
    pub usage_count: u64,
    /// Unix seconds of the most recent launch, if any.
    pub last_used: Option<i64>,
    /// Unix seconds when the record was first stored.
    pub added_date: i64,
}

/// An application as the index works with it.
#[derive(Debug)]
pub struct Application {
    pub name: String,
    /// A display name configured by the user, joined in by path.
    pub alias: Option<String>,
    pub app_id: String,
    pub path: String,
    /// Where the cached icon of the application lies.
    pub icon_path: Option<String>,
    /// The usage signal, derived when the record is loaded.
    pub usage_recency_score: UsageRecency,
}

/// What the user interface shows of a search result.
#[derive(Debug)]
pub struct AppForView {
    pub name: String,
    pub app_id: String,
    pub icon_path: String,
}

/// How an application is started.
#[derive(Clone, Copy, Debug, PartialEq, Eq, Structural)]
pub enum LaunchKind {
    /// A native executable, opened by the system.
    Executable,
    /// A shortcut file, opened by the system.
    Shortcut,
    /// A store package, started through the shell's application folder.
    StoreApp,
}

/// The launch target does not fit any kind of application.
#[derive(Clone, Copy, Debug, PartialEq, Eq, Structural)]
pub enum LaunchError {
    InvalidPath,
}

/// The launch kind that a launch target calls for: `.exe` and `.lnk` files by
/// their extension, a package identifier by having no backslash.
pub open spec fn launch_kind_of(path: Seq<char>) -> Result<LaunchKind, LaunchError> {
    if has_suffix(path, ".exe"@) {
        Ok(LaunchKind::Executable)
    } else if has_suffix(path, ".lnk"@) {
        Ok(LaunchKind::Shortcut)
    } else if !path.contains('\\') {
        Ok(LaunchKind::StoreApp)
    } else {
        Err(LaunchError::InvalidPath)
    }
}

/// What an icon is extracted from: the file itself for a file path, the
/// package name (the part before the first `_`) for a package identifier.
pub open spec fn icon_source_of(path: Seq<char>) -> Seq<char> {
    if path.contains('\\') {
        path
    } else {
        head_before(path, '_')
    }
}

/// The extension of a launchable file: an executable or a shortcut.
pub open spec fn is_launchable_extension(ext: Seq<char>) -> bool {
    eq_ignore_ascii_case(ext, "exe"@) || eq_ignore_ascii_case(ext, "lnk"@)
}

/// `s` between double quotes.
pub open spec fn quoted(s: Seq<char>) -> Seq<char> {
    "\""@ + s + "\""@
}

/// The items, each quoted, separated by commas.
pub open spec fn quoted_list(items: Seq<Seq<char>>) -> Seq<char>
    decreases items.len(),
{
    if items.len() == 0 {
        Seq::empty()
    } else if items.len() == 1 {
        quoted(items[0])
    } else {
        quoted_list(items.drop_last()) + ","@ + quoted(items.last())
    }
}

/// Quotes each item and joins them with commas.
pub fn quote_join(items: &Vec<String>) -> (r: String)
    ensures
        r@ == quoted_list(items@.map_values(|s: String| s@)),
{
    let ghost views = items@.map_values(|s: String| s@);
    let mut out = String::new();
    let mut k: usize = 0;
    while k < items.len()
        invariant
            k <= items.len(),
            views == items@.map_values(|s: String| s@),
            out@ == quoted_list(views.subrange(0, k as int)),
        decreases items.len() - k,
    {
        let ghost prev = out@;
        if k > 0 {
            out.append(",");
        }
        out.append("\"");
        out.append(items[k].as_str());
        out.append("\"");
        proof {
            let sub = views.subrange(0, k + 1);
            assert(sub.drop_last() =~= views.subrange(0, k as int));
            if k == 0 {
                assert(out@ =~= quoted(sub[0]));
            } else {
                assert(out@ =~= prev + ","@ + quoted(sub.last()));
            }
        }
        k = k + 1;
    }
    assert(views.subrange(0, k as int) =~= views);
    out
}

/// The arguments of an icon extraction run for `applications`: the quoted,
/// comma-separated list of what each icon is extracted from, and the list of
/// the files the icons go to under `icon_dir`.
pub fn create_app_icon_arguments(applications: &Vec<Application>, icon_dir: &str) -> (r: (
    String,
    String,
))
    ensures
        r.0@ == quoted_list(applications@.map_values(|a: Application| icon_source_of(a.path@))),
        r.1@ == quoted_list(
            applications@.map_values(|a: Application| icon_dir@ + icon_name_of(a.app_id@)),
        ),
{
    let mut sources: Vec<String> = Vec::new();
    let mut targets: Vec<String> = Vec::new();
    let mut k: usize = 0;
    while k < applications.len()
        invariant
            k <= applications.len(),
            sources.len() == k,
            targets.len() == k,
            forall|m: int| 0 <= m < k ==> sources@[m]@ == icon_source_of(applications@[m].path@),
            forall|m: int|
                0 <= m < k ==> targets@[m]@ == icon_dir@ + icon_name_of(applications@[m].app_id@),
        decreases applications.len() - k,
    {
        let app = &applications[k];
        sources.push(app.icon_source());
        let name = app.get_icon_name();
        targets.push(String::from_str(icon_dir).concat(name.as_str()));
        k = k + 1;
    }
    assert(sources@.map_values(|s: String| s@) =~= applications@.map_values(
        |a: Application| icon_source_of(a.path@),
    ));
    assert(targets@.map_values(|s: String| s@) =~= applications@.map_values(
        |a: Application| icon_dir@ + icon_name_of(a.app_id@),
    ));
    (quote_join(&sources), quote_join(&targets))
}

/// A copy of an optional string.
pub fn copy_optional(o: &Option<String>) -> (r: Option<String>)
    ensures
        r == *o,
{
    match o {
        Some(s) => Some(s.clone()),
        None => None,
    }
}

impl Application {
    /// A freshly discovered application: no alias, no icon, no usage.
    pub fn new(name: String, app_id: String, path: String) -> (r: Application)
        ensures
            r.name == name,
            r.app_id == app_id,
            r.path == path,
            r.alias is None,
            r.icon_path is None,
            r.usage_recency_score == never_used(),
    {
        Application {
            name,
            alias: None,
            app_id,
            path,
            icon_path: None,
            usage_recency_score: UsageRecency::zero(),
        }
    }

    /// A field-by-field copy.
    pub fn duplicate(&self) -> (r: Application)
        ensures
            r == *self,
    {
        Application {
            name: self.name.clone(),
            alias: copy_optional(&self.alias),
            app_id: self.app_id.clone(),
            path: self.path.clone(),
            icon_path: copy_optional(&self.icon_path),
            usage_recency_score: self.usage_recency_score,
        }
    }

    /// The working form of a stored record as seen at `now`: its usage signal
    /// is `usage_count / (days since last use + 1)`.
    pub fn from_record(record: ApplicationRepositoryRecord, now: i64) -> (r: Application)
        ensures
            r.name == record.name,
            r.app_id == record.app_id,
            r.path == record.path,
            r.alias is None,
            r.icon_path is None,
            r.usage_recency_score == recency_of(record.usage_count, record.last_used, now),
    {
        let score = UsageRecency::from_usage(record.usage_count, record.last_used, now);
        Application {
            name: record.name,
            alias: None,
            app_id: record.app_id,
            path: record.path,
            icon_path: None,
            usage_recency_score: score,
        }
    }

    /// A candidate from a file found while walking a directory: only files with
    /// a launchable extension count; the name is the file stem, and the path is
    /// both identity and launch target.
    pub fn from_file_entry(stem: String, extension: &str, path: String) -> (r: Option<Application>)
        ensures
            is_launchable_extension(extension@) ==> r == Some(
                Application {
                    name: stem,
                    alias: None,
                    app_id: path,
                    path: path,
                    icon_path: None,
                    usage_recency_score: never_used(),
                },
            ),
            !is_launchable_extension(extension@) ==> r is None,
    {
        if equals_ignoring_ascii_case(extension, "exe") || equals_ignoring_ascii_case(
            extension,
            "lnk",
        ) {
            let id = path.clone();
            Some(Application::new(stem, id, path))
        } else {
            None
        }
    }

    /// A candidate reported by the package registry; the launch target is the
    /// package's full name.
    pub fn from_windows_store_app(name: String, app_id: String, package_fullname: String) -> (r:
        Application)
        ensures
            r.name == name,
            r.app_id == app_id,
            r.path == package_fullname,
            r.alias is None,
            r.icon_path is None,
            r.usage_recency_score == never_used(),
    {
        Application::new(name, app_id, package_fullname)
    }

    /// The icon cache file name of the application.
    pub fn get_icon_name(&self) -> (r: String)
        ensures
            r@ == icon_name_of(self.app_id@),
    {
        let hash = md5_lower_hex(self.app_id.as_str());
        icon_name_from_digest(hash.as_str())
    }

    /// How the application is to be started.
    pub fn launch_kind(&self) -> (r: Result<LaunchKind, LaunchError>)
        ensures
            r == launch_kind_of(self.path@),
    {
        if ends_with(self.path.as_str(), ".exe") {
            Ok(LaunchKind::Executable)
        } else if ends_with(self.path.as_str(), ".lnk") {
            Ok(LaunchKind::Shortcut)
        } else if !contains_char(self.path.as_str(), '\\') {
            Ok(LaunchKind::StoreApp)
        } else {
            Err(LaunchError::InvalidPath)
        }
    }

    /// The shell command that starts the application as a store package.
    pub fn store_launch_command(&self) -> (r: String)
        ensures
            r@ == "Start-Process \"shell:AppsFolder\\"@ + self.app_id@ + "\""@,
    {
        String::from_str("Start-Process \"shell:AppsFolder\\").concat(self.app_id.as_str()).concat(
            "\"",
        )
    }

    /// What the icon of the application is extracted from.
    pub fn icon_source(&self) -> (r: String)
        ensures
            r@ == icon_source_of(self.path@),
    {
        if contains_char(self.path.as_str(), '\\') {
            self.path.clone()
        } else {
            split_head(self.path.as_str(), '_')
        }
    }
}

} // verus!
