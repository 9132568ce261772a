use vstd::prelude::*;

verus! {

/// Progress reports of a sync job.
pub trait SyncUiHandler {
    fn begin_scan(&mut self);

    fn end_scan(&mut self);

    fn begin_prepare(&mut self);

    fn end_prepare(&mut self);

    fn begin_sync(&mut self, op_count: usize);

    fn sync_progress(&mut self);

    fn end_sync(&mut self);

    fn begin_file(&mut self, prefix: &str, filename: &str, size: u64);

    fn file_progress(&mut self, bytes: u64);

    fn end_file(&mut self);
}

/// Progress reports of the backup worker, around those of its syncs.
pub trait StoolUiHandler: SyncUiHandler {
    fn begin_backup(&mut self, name: &str);

    fn end_backup(&mut self, success: bool);

    fn begin_staging(&mut self, count: usize);

    fn begin_stage(&mut self, name: &str);

    fn end_stage(&mut self);

    fn end_staging(&mut self);

    fn begin_compress(&mut self);

    fn end_compress(&mut self);

    fn begin_restore(&mut self, name: &str);

    fn end_restore(&mut self, success: bool);

    fn begin_extract(&mut self);

    fn end_extract(&mut self);

    fn begin_restore_sp(&mut self, name: &str);

    fn end_restore_sp(&mut self);
}

} // verus!
