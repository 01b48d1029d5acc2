//! A change to one file of a repository: modify its lines, create it, or delete it.

use vstd::prelude::*;
use crate::line_change::{LineChange, LineChangeView, change_views};
use crate::text::str_eq;

verus! {

/// A proposed change to one file.
#[derive(Debug, Clone)]
#[allow(inconsistent_fields)]
pub enum FileChange {
    ModifyFile {
        file_path: String,
        reason: String,
        severity: String,
        category: String,
        line_changes: Vec<LineChange>,
    },
    CreateFile { file_path: String, reason: String, severity: String, category: String, content: String },
    DeleteFile { file_path: String, reason: String, severity: String, category: String },
}

/// A change with its texts as character sequences.
pub enum FileChangeView {
    ModifyFile {
        file_path: Seq<char>,
        reason: Seq<char>,
        severity: Seq<char>,
        category: Seq<char>,
        line_changes: Seq<LineChangeView>,
    },
    CreateFile {
        file_path: Seq<char>,
        reason: Seq<char>,
        severity: Seq<char>,
        category: Seq<char>,
        content: Seq<char>,
    },
    DeleteFile { file_path: Seq<char>, reason: Seq<char>, severity: Seq<char>, category: Seq<char> },
}

impl View for FileChange {
    type V = FileChangeView;

    open spec fn view(&self) -> FileChangeView {
        match self {
            FileChange::ModifyFile { file_path, reason, severity, category, line_changes } =>
                FileChangeView::ModifyFile {
                file_path: file_path@,
                reason: reason@,
                severity: severity@,
                category: category@,
                line_changes: change_views(line_changes@),
            },
            FileChange::CreateFile { file_path, reason, severity, category, content } =>
                FileChangeView::CreateFile {
                file_path: file_path@,
                reason: reason@,
                severity: severity@,
                category: category@,
                content: content@,
            },
            FileChange::DeleteFile { file_path, reason, severity, category } =>
                FileChangeView::DeleteFile {
                file_path: file_path@,
                reason: reason@,
                severity: severity@,
                category: category@,
            },
        }
    }
}

/// The views of a sequence of file changes.
pub open spec fn file_change_views(cs: Seq<FileChange>) -> Seq<FileChangeView> {
    cs.map_values(|c: FileChange| c@)
}

/// The path of the file a change is about.
pub open spec fn path_of(c: FileChange) -> Seq<char> {
    match c {
        FileChange::ModifyFile { file_path, .. } => file_path@,
        FileChange::CreateFile { file_path, .. } => file_path@,
        FileChange::DeleteFile { file_path, .. } => file_path@,
    }
}

/// The severity label of a change.
pub open spec fn severity_label(c: FileChange) -> Seq<char> {
    match c {
        FileChange::ModifyFile { severity, .. } => severity@,
        FileChange::CreateFile { severity, .. } => severity@,
        FileChange::DeleteFile { severity, .. } => severity@,
    }
}

/// The category label of a change.
pub open spec fn category_label(c: FileChange) -> Seq<char> {
    match c {
        FileChange::ModifyFile { category, .. } => category@,
        FileChange::CreateFile { category, .. } => category@,
        FileChange::DeleteFile { category, .. } => category@,
    }
}

impl FileChange {
    /// The path of the file the change is about.
    pub fn get_file_path(&self) -> (res: &str)
        ensures
            res@ == path_of(*self),
    {
        match self {
            FileChange::ModifyFile { file_path, .. } => file_path.as_str(),
            FileChange::CreateFile { file_path, .. } => file_path.as_str(),
            FileChange::DeleteFile { file_path, .. } => file_path.as_str(),
        }
    }

    /// The severity label of the change.
    pub fn get_severity(&self) -> (res: &str)
        ensures
            res@ == severity_label(*self),
    {
        match self {
            FileChange::ModifyFile { severity, .. } => severity.as_str(),
            FileChange::CreateFile { severity, .. } => severity.as_str(),
            FileChange::DeleteFile { severity, .. } => severity.as_str(),
        }
    }

    /// The category label of the change; every change has one.
    pub fn get_category(&self) -> (res: Option<&str>)
        ensures
            res matches Some(c) && c@ == category_label(*self),
    {
        match self {
            FileChange::ModifyFile { category, .. } => Some(category.as_str()),
            FileChange::CreateFile { category, .. } => Some(category.as_str()),
            FileChange::DeleteFile { category, .. } => Some(category.as_str()),
        }
    }

    /// The line edits of a modification; `None` for a creation or deletion.
    pub fn get_line_changes(&self) -> (res: Option<&Vec<LineChange>>)
        ensures
            match *self {
                FileChange::ModifyFile { line_changes, .. } => res == Some(&line_changes),
                _ => res is None,
            },
    {
        match self {
            FileChange::ModifyFile { line_changes, .. } => Some(line_changes),
            _ => None,
        }
    }

    /// The change is marked "critical".
    pub fn is_critical(&self) -> (res: bool)
        ensures
            res == (severity_label(*self) == "critical"@),
    {
        str_eq(self.get_severity(), "critical")
    }

    /// The change is marked "critical" or "high".
    pub fn is_high_priority(&self) -> (res: bool)
        ensures
            res == (severity_label(*self) == "critical"@ || severity_label(*self) == "high"@),
    {
        let s = self.get_severity();
        str_eq(s, "critical") || str_eq(s, "high")
    }

    /// The change is in the category of the given label.
    fn in_category(&self, label: &str) -> (res: bool)
        ensures
            res == (category_label(*self) == label@),
    {
        match self.get_category() {
            Some(c) => str_eq(c, label),
            None => false,
        }
    }

    /// The change is in category "SECURITY".
    pub fn is_security_related(&self) -> (res: bool)
        ensures
            res == (category_label(*self) == "SECURITY"@),
    {
        self.in_category("SECURITY")
    }

    /// The change is in category "ARCHITECTURE".
    pub fn is_architecture_related(&self) -> (res: bool)
        ensures
            res == (category_label(*self) == "ARCHITECTURE"@),
    {
        self.in_category("ARCHITECTURE")
    }

    /// The change is in category "CLEAN_CODE".
    pub fn is_clean_code_related(&self) -> (res: bool)
        ensures
            res == (category_label(*self) == "CLEAN_CODE"@),
    {
        self.in_category("CLEAN_CODE")
    }

    /// The change is in category "BUGS".
    pub fn is_bug_fix(&self) -> (res: bool)
        ensures
            res == (category_label(*self) == "BUGS"@),
    {
        self.in_category("BUGS")
    }

    /// The change is in category "PERFORMANCE".
    pub fn is_performance_improvement(&self) -> (res: bool)
        ensures
            res == (category_label(*self) == "PERFORMANCE"@),
    {
        self.in_category("PERFORMANCE")
    }

    /// The change is in category "DUPLICATE_CODE".
    pub fn is_duplicate_code_fix(&self) -> (res: bool)
        ensures
            res == (category_label(*self) == "DUPLICATE_CODE"@),
    {
        self.in_category("DUPLICATE_CODE")
    }
}

} // verus!
