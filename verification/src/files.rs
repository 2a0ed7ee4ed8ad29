use crate::numeric::{decimal_within, parse_u64, parse_usize};
use crate::text::{alphanumeric_only, lowercased};
use spreadsheet_to_json::ReadMode;
use vstd::prelude::*;

verus! {

/// What is known of an uploaded file: its name, its size in bytes and its age in seconds.
#[derive(Debug, PartialEq, Eq)]
pub struct FileInfo {
    pub filename: String,
    pub size: u64,
    pub age: u64,
}

impl FileInfo {
    /// What is known of a file.
    pub fn new(fname: &str, size: u64, age: u64) -> (r: FileInfo)
        ensures
            r.filename@ == fname@,
            r.size == size,
            r.age == age,
    {
        FileInfo { filename: fname.to_owned(), size, age }
    }
}

/// The greatest size of an upload, in bytes, where none is configured.
pub const DEFAULT_MAX_UPLOAD_SIZE: usize = 52_428_800;

/// The number of seconds after which an uploaded file is removed, where none is configured.
pub const DEFAULT_DELETE_TMP_FILES_AFTER_SECONDS: u64 = 600;

/// The number that a setting gives: what its text reads as a size, or the
/// default where the setting is absent or reads as none.
pub open spec fn size_setting(configured: Option<&str>, default: usize) -> usize {
    match configured {
        Some(text) => match decimal_within(text@, 0, usize::MAX as int) {
            Some(n) => if text@[0] != '-' {
                n as usize
            } else {
                default
            },
            None => default,
        },
        None => default,
    }
}

/// The number that a setting gives, or the default.
pub fn setting_or(configured: Option<&str>, default: usize) -> (r: usize)
    ensures
        r == size_setting(configured, default),
{
    match configured {
        Some(text) => match parse_usize(text) {
            Some(n) => n,
            None => default,
        },
        None => default,
    }
}

/// The greatest size of an upload, in bytes: the configured one, or 50 MiB.
pub fn get_max_upload_size(configured: Option<&str>) -> (r: usize)
    ensures
        r == size_setting(configured, DEFAULT_MAX_UPLOAD_SIZE),
{
    setting_or(configured, DEFAULT_MAX_UPLOAD_SIZE)
}

/// The greatest size of a request's body: twice that of an upload and 32 KiB.
pub fn get_max_body_size(max_upload_size: usize) -> (r: usize)
    requires
        max_upload_size * 2 + 32_768 <= usize::MAX,
    ensures
        r == max_upload_size * 2 + 32_768,
{
    max_upload_size * 2 + 32_768
}

/// The number of seconds after which an uploaded file is removed: the
/// configured one, or 600.
pub fn tmp_file_delete_after_seconds(configured: Option<&str>) -> (r: u64)
    ensures
        r == match configured {
            Some(text) => match decimal_within(text@, 0, u64::MAX as int) {
                Some(n) => if text@[0] != '-' {
                    n as u64
                } else {
                    DEFAULT_DELETE_TMP_FILES_AFTER_SECONDS
                },
                None => DEFAULT_DELETE_TMP_FILES_AFTER_SECONDS,
            },
            None => DEFAULT_DELETE_TMP_FILES_AFTER_SECONDS,
        },
{
    match configured {
        Some(text) => match parse_u64(text) {
            Some(n) => n,
            None => DEFAULT_DELETE_TMP_FILES_AFTER_SECONDS,
        },
        None => DEFAULT_DELETE_TMP_FILES_AFTER_SECONDS,
    }
}

/// Whether a file is the one that a request is working on.
pub fn is_current_file(name: &str, current: Option<&str>) -> (r: bool)
    ensures
        r == (current matches Some(c) && c@ == name@),
{
    match current {
        Some(c) => *c == *name,
        None => false,
    }
}

/// Whether a file that is not being worked on has outlived its time.
pub fn is_expired(age_seconds: u64, delete_after_seconds: u64) -> (r: bool)
    ensures
        r == (age_seconds > delete_after_seconds),
{
    age_seconds > delete_after_seconds
}

/// Whether a key, in lower case and of letters and digits only, names the
/// mode that previews several sheets.
pub open spec fn is_preview_key(key: Seq<char>) -> bool {
    ||| key == "preview"@
    ||| key == "p"@
    ||| key == "pre"@
    ||| key == "multimode"@
    ||| key == "multiple"@
    ||| key == "previewmultiple"@
    ||| key == "previewmulti"@
    ||| key == "m"@
}

/// Calls `ReadMode::from_key` and `ReadMode::is_multimode`: the key is put in
/// lower case and stripped of all but letters and digits, and then names the
/// preview mode if it is one of eight words.
#[verifier::external_body]
pub(crate) fn is_multimode(mode: &str) -> (r: bool)
    ensures
        r == is_preview_key(alphanumeric_only(lowercased(mode@))),
{
    ReadMode::from_key(mode).is_multimode()
}

/// Whether a processing mode asks for a preview.
pub fn is_preview(mode: &str) -> (r: bool)
    ensures
        r == is_preview_key(alphanumeric_only(lowercased(mode@))),
{
    is_multimode(mode)
}

/// The numbers of rows that a request may read.
#[derive(Clone, Copy, Debug, PartialEq, Eq, Structural)]
pub struct RowLimits {
    pub default_limit: usize,
    pub default_preview_limit: usize,
    pub max_limit: usize,
    pub max_preview_limit: usize,
}

impl RowLimits {
    /// The limits that the settings give: 1000 rows by default and 10000 at
    /// most, 25 and 200 for a preview, where a setting says nothing else.
    pub fn from_settings(
        default_limit: Option<&str>,
        default_preview_limit: Option<&str>,
        max_limit: Option<&str>,
        max_preview_limit: Option<&str>,
    ) -> (r: RowLimits)
        ensures
            r == (RowLimits {
                default_limit: size_setting(default_limit, 1000),
                default_preview_limit: size_setting(default_preview_limit, 25),
                max_limit: size_setting(max_limit, 10000),
                max_preview_limit: size_setting(max_preview_limit, 200),
            }),
    {
        RowLimits {
            default_limit: setting_or(default_limit, 1000),
            default_preview_limit: setting_or(default_preview_limit, 25),
            max_limit: setting_or(max_limit, 10000),
            max_preview_limit: setting_or(max_preview_limit, 200),
        }
    }

    /// The number of rows to read: the requested one, at most the greatest
    /// for the kind of request, or the default for it where none is requested.
    pub fn row_limit(&self, requested: Option<usize>, preview: bool) -> (r: usize)
        ensures
            r == match requested {
                Some(n) => if n < self.greatest(preview) {
                    n
                } else {
                    self.greatest(preview)
                },
                None => if preview {
                    self.default_preview_limit
                } else {
                    self.default_limit
                },
            },
    {
        let greatest = if preview {
            self.max_preview_limit
        } else {
            self.max_limit
        };
        match requested {
            Some(n) => if n < greatest {
                n
            } else {
                greatest
            },
            None => if preview {
                self.default_preview_limit
            } else {
                self.default_limit
            },
        }
    }

    /// The greatest number of rows for a kind of request.
    pub open spec fn greatest(&self, preview: bool) -> usize {
        if preview {
            self.max_preview_limit
        } else {
            self.max_limit
        }
    }
}

/// The row that holds the headers: the given one if it is below 256, else the first.
pub fn header_row(index: usize) -> (r: u8)
    ensures
        r == if index < 256 {
            index as u8
        } else {
            0u8
        },
{
    if index < 256 {
        index as u8
    } else {
        0
    }
}

/// How many of the saved rows a response shows: all of them, at most `max_output`.
pub fn rows_shown(saved: usize, max_output: usize) -> (r: usize)
    ensures
        r == if saved > max_output {
            max_output
        } else {
            saved
        },
{
    if saved > max_output {
        max_output
    } else {
        saved
    }
}

} // verus!
