//! The plain records that the application keeps and passes on.
use vstd::prelude::*;

verus! {

/// The user's settings.
#[derive(Clone, Debug)]
pub struct Config {
    pub save_path: String,
    pub to_pdf: bool,
    pub auto_download: bool,
    pub ding_url: String,
    pub auto_open_download_list: bool,
    pub tray: bool,
    pub max_concurrent_tasks: u32,
    pub auto_start: bool,
    /// Whether captured slides are deduplicated before export.
    pub enable_image_dedup: bool,
    /// The largest Hamming distance at which two slides count as the same.
    pub dedup_threshold: u32,
}

/// A courseware file to download. It is saved under `path` joined with
/// `file_name`.
#[derive(Clone, Debug)]
pub struct Upload {
    pub id: i64,
    pub reference_id: i64,
    pub file_name: String,
    pub course_name: String,
    pub path: String,
    pub size: u64,
}

/// How far one download has come.
#[derive(Clone, Debug)]
pub struct Progress {
    pub id: String,
    pub status: String,
    pub file_name: String,
    pub downloaded_size: u64,
    pub total_size: u64,
}

impl Progress {
    /// Whether nothing is known of the download yet: no text, no bytes.
    pub open spec fn is_blank(self) -> bool {
        &&& self.id@.len() == 0
        &&& self.status@.len() == 0
        &&& self.file_name@.len() == 0
        &&& self.downloaded_size == 0
        &&& self.total_size == 0
    }
}

impl Default for Progress {
    /// The progress of a download of which nothing is known yet.
    fn default() -> (progress: Progress)
        ensures
            progress.is_blank(),
    {
        Progress {
            id: String::new(),
            status: String::new(),
            file_name: String::new(),
            downloaded_size: 0,
            total_size: 0,
        }
    }
}

/// One recorded lecture with its slide captures. Its files are saved under
/// `path` joined with `sub_name`.
#[derive(Clone, Debug)]
pub struct Subject {
    pub course_id: i64,
    pub sub_id: i64,
    pub course_name: String,
    pub sub_name: String,
    pub lecturer_name: String,
    pub path: String,
    pub ppt_image_urls: Vec<String>,
}

/// A request to download the subtitles of one lecture. They are saved where
/// the lecture's slides are.
#[derive(Clone, Debug)]
pub struct SubtitleRequest {
    pub sub_id: i64,
    pub course_name: String,
    pub sub_name: String,
    pub path: String,
}

/// The outcome of a batch of subtitle downloads.
#[derive(Clone, Debug)]
pub struct SubtitleDownloadResult {
    pub success: u32,
    pub failed: u32,
    pub errors: Vec<String>,
}

} // verus!
