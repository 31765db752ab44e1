//! Ingestion and reading of stored deal datasets: naming, the outcome of
//! importing each file, the summary of an import, and the stacking of the
//! datasets that could be read.
use vstd::prelude::*;
use crate::deal::{Deal, DealColumns, deal_views, rows_of};
use crate::error::AppError;
use crate::query::with_extension;
use crate::text::{decimal, decimal_text, join_path, joined, same_text, string_views};

verus! {

/// Result for one file of an import.
#[derive(Debug, Clone)]
pub struct FileImportResult {
    pub filename: String,
    pub success: bool,
    pub message: String,
}

impl FileImportResult {
    pub fn success(filename: String, message: String) -> (r: FileImportResult)
        ensures
            r.filename == filename,
            r.success,
            r.message == message,
    {
        FileImportResult { filename, success: true, message }
    }

    pub fn error(filename: String, message: String) -> (r: FileImportResult)
        ensures
            r.filename == filename,
            !r.success,
            r.message == message,
    {
        FileImportResult { filename, success: false, message }
    }
}

/// Result of an import: overall status, a summary, and the per-file results.
#[derive(Debug, Clone)]
pub struct DealImportResult {
    pub success: bool,
    pub message: String,
    pub file_results: Vec<FileImportResult>,
}

impl DealImportResult {
    pub fn success(message: String, file_results: Vec<FileImportResult>) -> (r: DealImportResult)
        ensures
            r.success,
            r.message == message,
            r.file_results == file_results,
    {
        DealImportResult { success: true, message, file_results }
    }

    pub fn error(message: String, file_results: Vec<FileImportResult>) -> (r: DealImportResult)
        ensures
            !r.success,
            r.message == message,
            r.file_results == file_results,
    {
        DealImportResult { success: false, message, file_results }
    }
}

/// How far the import of one file went.
#[derive(Debug, Clone)]
pub enum ImportStep {
    /// Writing the uploaded bytes to the staging area failed.
    WriteFailed(String),
    /// The staged file failed validation; the message says why.
    Rejected(String),
    /// Copying the validated file into storage failed.
    CopyFailed(String),
    /// The file is stored at this path.
    Stored(String),
}

/// Number of successful results.
pub open spec fn successes(s: Seq<FileImportResult>) -> nat
    decreases s.len(),
{
    if s.len() == 0 {
        0
    } else {
        successes(s.drop_last()) + if s.last().success {
            1nat
        } else {
            0nat
        }
    }
}

/// The summary message of an import of `total` files of which `ok`
/// succeeded, stored under `dir`.
pub open spec fn import_summary(total: nat, ok: nat, dir: Seq<char>) -> Seq<char> {
    if total == 0 {
        "No files provided"@
    } else if ok == total {
        "Successfully imported "@ + decimal(ok) + " file(s) to "@ + dir
    } else if ok == 0 {
        "Failed to import all "@ + decimal(total) + " file(s)"@
    } else {
        "Imported "@ + decimal(ok) + " file(s), "@ + decimal((total - ok) as nat) + " file(s) failed"@
    }
}

proof fn lemma_successes_bound(s: Seq<FileImportResult>)
    ensures
        successes(s) <= s.len(),
    decreases s.len(),
{
    if s.len() > 0 {
        lemma_successes_bound(s.drop_last());
    }
}

/// Reads, imports, and reads back stored deal datasets.
pub struct DealService;

impl DealService {
    /// The stored name of an uploaded file: the dataset extension appended
    /// if absent. An empty name is refused.
    pub fn import_file_name(filename: &str) -> (r: Result<String, AppError>)
        ensures
            filename@.len() == 0 <==> r is Err,
            r matches Err(e) ==> e.message@ == "Filename cannot be empty"@,
            r matches Ok(n) ==> n@ == with_extension(filename@),
    {
        if filename.unicode_len() == 0 {
            return Err(AppError::new("Filename cannot be empty"));
        }
        Ok(crate::query::source_file_name(filename))
    }

    /// The result for one uploaded file, from how far its import went.
    pub fn file_outcome(filename: &str, step: ImportStep) -> (r: FileImportResult)
        ensures
            r.filename@ == filename@,
            r.success <==> step is Stored,
            r.message@ == match step {
                ImportStep::WriteFailed(e) => "Failed to write file to temp location: "@ + e@,
                ImportStep::Rejected(e) => e@,
                ImportStep::CopyFailed(e) => "Failed to copy file to cache directory: "@ + e@,
                ImportStep::Stored(p) => "Successfully imported to "@ + p@,
            },
    {
        let name = String::from_str(filename);
        match step {
            ImportStep::WriteFailed(e) => {
                let mut m = String::from_str("Failed to write file to temp location: ");
                m.append(e.as_str());
                FileImportResult::error(name, m)
            },
            ImportStep::Rejected(e) => FileImportResult::error(name, e),
            ImportStep::CopyFailed(e) => {
                let mut m = String::from_str("Failed to copy file to cache directory: ");
                m.append(e.as_str());
                FileImportResult::error(name, m)
            },
            ImportStep::Stored(p) => {
                let mut m = String::from_str("Successfully imported to ");
                m.append(p.as_str());
                FileImportResult::success(name, m)
            },
        }
    }

    /// The result of an import from its per-file results: successful when
    /// every file succeeded, with a summary that counts the files; an import
    /// of no file fails.
    pub fn summarize_import(file_results: Vec<FileImportResult>, deals_dir: &str) -> (r:
        DealImportResult)
        ensures
            r.file_results == file_results,
            r.success <==> file_results@.len() > 0 && successes(file_results@)
                == file_results@.len(),
            r.message@ == import_summary(
                file_results@.len(),
                successes(file_results@),
                deals_dir@,
            ),
    {
        let total = file_results.len();
        let mut ok: usize = 0;
        let mut i: usize = 0;
        while i < total
            invariant
                i <= total,
                total == file_results.len(),
                ok == successes(file_results@.subrange(0, i as int)),
                ok <= i,
            decreases total - i,
        {
            assert(file_results@.subrange(0, i + 1).drop_last() =~= file_results@.subrange(
                0,
                i as int,
            ));
            if file_results[i].success {
                ok = ok + 1;
            }
            i = i + 1;
        }
        assert(file_results@.subrange(0, total as int) =~= file_results@);
        if total == 0 {
            return DealImportResult::error(String::from_str("No files provided"), file_results);
        }
        if ok == total {
            let mut m = String::from_str("Successfully imported ");
            let n = decimal_text(ok as u64);
            m.append(n.as_str());
            m.append(" file(s) to ");
            m.append(deals_dir);
            DealImportResult::success(m, file_results)
        } else if ok == 0 {
            let mut m = String::from_str("Failed to import all ");
            let n = decimal_text(total as u64);
            m.append(n.as_str());
            m.append(" file(s)");
            DealImportResult::error(m, file_results)
        } else {
            let mut m = String::from_str("Imported ");
            let n = decimal_text(ok as u64);
            m.append(n.as_str());
            m.append(" file(s), ");
            let f = decimal_text((total - ok) as u64);
            m.append(f.as_str());
            m.append(" file(s) failed");
            DealImportResult::error(m, file_results)
        }
    }

    /// The path of the stored dataset `filename` (the dataset extension
    /// appended if absent), which must be among the files of `deals_dir`.
    pub fn locate_file(filename: &str, deals_dir: &str, dir_files: &Vec<String>) -> (r: Result<
        String,
        AppError,
    >)
        ensures
            string_views(dir_files@).contains(with_extension(filename@)) <==> r is Ok,
            r matches Ok(p) ==> p@ == joined(deals_dir@, with_extension(filename@)),
            r matches Err(e) ==> e.message@ == "File does not exist: "@ + joined(
                deals_dir@,
                with_extension(filename@),
            ),
    {
        let name = crate::query::source_file_name(filename);
        let path = join_path(deals_dir, name.as_str());
        let ghost names = string_views(dir_files@);
        let mut i: usize = 0;
        while i < dir_files.len()
            invariant
                i <= dir_files.len(),
                names == string_views(dir_files@),
                name@ == with_extension(filename@),
                path@ == joined(deals_dir@, with_extension(filename@)),
                forall|j: int| 0 <= j < i ==> names[j] != name@,
            decreases dir_files.len() - i,
        {
            if same_text(dir_files[i].as_str(), name.as_str()) {
                assert(names[i as int] == name@);
                assert(names.contains(name@));
                return Ok(path);
            }
            i = i + 1;
        }
        let mut m = String::from_str("File does not exist: ");
        m.append(path.as_str());
        Err(AppError::from_message(m))
    }

    /// All deals of the datasets that could be read, stacked in order; a
    /// dataset that could not be read is left out.
    pub fn read_all_deals(datasets: &Vec<Result<DealColumns, AppError>>) -> (r: Vec<Deal>)
        ensures
            deal_views(r@) == readable_rows(datasets@),
    {
        let mut out: Vec<Deal> = Vec::new();
        let mut k: usize = 0;
        while k < datasets.len()
            invariant
                k <= datasets.len(),
                deal_views(out@) == readable_rows(datasets@.subrange(0, k as int)),
            decreases datasets.len() - k,
        {
            assert(datasets@.subrange(0, k + 1).drop_last() =~= datasets@.subrange(0, k as int));
            match &datasets[k] {
                Ok(cols) => {
                    let ghost before = deal_views(out@);
                    let mut i: usize = 0;
                    assert(before + rows_of(cols@).subrange(0, 0) =~= before);
                    while i < cols.height
                        invariant
                            i <= cols.height,
                            deal_views(out@) == before + rows_of(cols@).subrange(0, i as int),
                        decreases cols.height - i,
                    {
                        let d = cols.row(i);
                        let ghost prev = out@;
                        out.push(d);
                        assert(deal_views(out@) =~= deal_views(prev).push(d@));
                        assert(rows_of(cols@).subrange(0, i + 1) =~= rows_of(cols@).subrange(
                            0,
                            i as int,
                        ).push(d@));
                        assert(deal_views(out@) =~= before + rows_of(cols@).subrange(0, i + 1));
                        i = i + 1;
                    }
                    assert(rows_of(cols@).subrange(0, cols.height as int) =~= rows_of(cols@));
                },
                Err(_) => {},
            }
            k = k + 1;
        }
        assert(datasets@.subrange(0, datasets.len() as int) =~= datasets@);
        out
    }
}

/// The rows of the datasets that could be read, stacked in order.
pub open spec fn readable_rows(ds: Seq<Result<DealColumns, AppError>>) -> Seq<crate::deal::DealView>
    decreases ds.len(),
{
    if ds.len() == 0 {
        Seq::empty()
    } else {
        readable_rows(ds.drop_last()) + match ds.last() {
            Ok(c) => rows_of(c@),
            Err(_) => Seq::empty(),
        }
    }
}

} // verus!
