//! The archival trigger: the policy that decides when a prefix of the live
//! log is exported to external archive storage, and the index of what each
//! archive holds. The export itself is an outside call; the engine only
//! decides, records, and trims. A crashed or unreachable archive must never
//! corrupt or block the live ledger: export failure keeps the trigger in
//! `Archiving` and the next check retries.

use vstd::prelude::*;

verus! {

/// One supported block type of the ledger, named for the standard defining
/// it.
pub struct BlockType {
    pub block_type: String,
    pub url: String,
}

/// How an archive instance indexes its blocks.
pub enum IndexType {
    Managed,
    Stable,
    StableTyped,
}

/// A contiguous range of transaction indices.
pub struct TransactionRange {
    pub start: u128,
    pub length: u128,
}

/// The archival configuration.
pub struct ArchiveSetting {
    pub archive_controllers: Option<Option<Vec<Vec<u8>>>>,
    pub archive_cycles: u128,
    pub archive_index_type: IndexType,
    pub max_active_records: u128,
    pub max_archive_pages: u128,
    pub max_records_in_archive_instance: u128,
    pub max_records_to_archive: u128,
    pub settle_to_records: u128,
}

impl Default for ArchiveSetting {
    /// The default archival configuration.
    fn default() -> (r: Self)
        ensures
            r.archive_controllers is None,
            r.archive_cycles == 2_000_000_000_000u128,
            r.archive_index_type is Stable,
            r.max_active_records == 2000u128,
            r.max_archive_pages == 62500u128,
            r.max_records_in_archive_instance == 10_000_000u128,
            r.max_records_to_archive == 10_000u128,
            r.settle_to_records == 1000u128,
    {
        ArchiveSetting {
            archive_controllers: None,
            archive_cycles: 2_000_000_000_000,
            archive_index_type: IndexType::Stable,
            max_active_records: 2000,
            max_archive_pages: 62500,
            max_records_in_archive_instance: 10_000_000,
            max_records_to_archive: 10_000,
            settle_to_records: 1000,
        }
    }
}

/// The archival configuration as handed to initialization.
pub struct InitArchiveArg {
    pub archive_controllers: Option<Option<Vec<Vec<u8>>>>,
    pub archive_cycles: u128,
    pub archive_index_type: IndexType,
    pub max_active_records: u128,
    pub max_archive_pages: u128,
    pub max_records_in_archive_instance: u128,
    pub max_records_to_archive: u128,
    pub settle_to_records: u128,
}

impl InitArchiveArg {
    /// The archival setting this initialization argument names.
    pub fn to_archive_setting(self) -> (r: ArchiveSetting)
        ensures
            r.archive_controllers == self.archive_controllers,
            r.archive_cycles == self.archive_cycles,
            r.archive_index_type == self.archive_index_type,
            r.max_active_records == self.max_active_records,
            r.max_archive_pages == self.max_archive_pages,
            r.max_records_in_archive_instance == self.max_records_in_archive_instance,
            r.max_records_to_archive == self.max_records_to_archive,
            r.settle_to_records == self.settle_to_records,
    {
        ArchiveSetting {
            archive_controllers: self.archive_controllers,
            archive_cycles: self.archive_cycles,
            archive_index_type: self.archive_index_type,
            max_active_records: self.max_active_records,
            max_archive_pages: self.max_archive_pages,
            max_records_in_archive_instance: self.max_records_in_archive_instance,
            max_records_to_archive: self.max_records_to_archive,
            settle_to_records: self.settle_to_records,
        }
    }
}

/// Where the archival trigger stands: idle, exporting, or trimming.
pub enum ArchiveState {
    Idle,
    Archiving,
    Settling,
}

/// One archive instance and the transaction range it owns.
pub struct ArchiveEntry {
    pub canister_id: Vec<u8>,
    pub range: TransactionRange,
}

/// The archival trigger's state and index.
pub struct ArchiveLedgerInfo {
    pub archives: Vec<ArchiveEntry>,
    pub supported_blocks: Vec<BlockType>,
    pub state: ArchiveState,
    /// Records appended since the trigger last fired.
    pub records_since_trigger: u128,
    /// How many live records the pending export covers.
    pub pending_export: u128,
    pub setting: ArchiveSetting,
}

impl ArchiveLedgerInfo {
    /// Whether the trigger should fire: only when idle, and once the live
    /// log outgrows the archive instance's capacity less the active-records
    /// headroom, or once as many records arrived since the last firing as
    /// one export moves.
    pub open spec fn should_trigger(self, live_len: int) -> bool {
        &&& self.state is Idle
        &&& {
            ||| live_len + self.setting.max_active_records
                > self.setting.max_records_in_archive_instance
            ||| self.records_since_trigger >= self.setting.max_records_to_archive
        }
    }

    /// How many records one export moves out: down to the settle-to count,
    /// and at most the configured per-export maximum.
    pub open spec fn export_count(self, live_len: int) -> int {
        let excess = if live_len > self.setting.settle_to_records {
            live_len - self.setting.settle_to_records
        } else {
            0
        };
        if excess > self.setting.max_records_to_archive {
            self.setting.max_records_to_archive as int
        } else {
            excess
        }
    }

    /// A fresh trigger state under a given setting.
    pub fn new(setting: Option<ArchiveSetting>) -> (r: Self)
        ensures
            r.archives@.len() == 0,
            r.state is Idle,
            r.records_since_trigger == 0,
            r.pending_export == 0,
            match setting {
                Some(s) => r.setting == s,
                None => r.setting.archive_controllers is None
                    && r.setting.archive_cycles == 2_000_000_000_000u128
                    && r.setting.archive_index_type is Stable && r.setting.max_active_records
                    == 2000u128 && r.setting.max_archive_pages == 62500u128
                    && r.setting.max_records_in_archive_instance == 10_000_000u128
                    && r.setting.max_records_to_archive == 10_000u128
                    && r.setting.settle_to_records == 1000u128,
            },
            r.supported_blocks@.len() == 9,
            r.supported_blocks@[0].block_type@ == "7mint"@,
            r.supported_blocks@[1].block_type@ == "7burn"@,
            r.supported_blocks@[2].block_type@ == "7xfer"@,
            r.supported_blocks@[3].block_type@ == "7update"@,
            r.supported_blocks@[4].block_type@ == "37appr"@,
            r.supported_blocks@[5].block_type@ == "37appr_coll"@,
            r.supported_blocks@[6].block_type@ == "37revoke"@,
            r.supported_blocks@[7].block_type@ == "37revoke_coll"@,
            r.supported_blocks@[8].block_type@ == "37xfer"@,
            forall|k: int|
                0 <= k < 4 ==> (#[trigger] r.supported_blocks@[k]).url@
                    == "https://github.com/dfinity/ICRC/blob/main/ICRCs/ICRC-7/ICRC-7.md"@,
            forall|k: int|
                4 <= k < 9 ==> (#[trigger] r.supported_blocks@[k]).url@
                    == "https://github.com/dfinity/ICRC/blob/main/ICRCs/ICRC-37/ICRC-37.md"@,
    {
        let setting = match setting {
            Some(s) => s,
            None => ArchiveSetting::default(),
        };
        ArchiveLedgerInfo {
            archives: Vec::new(),
            supported_blocks: supported_block_types(),
            state: ArchiveState::Idle,
            records_since_trigger: 0,
            pending_export: 0,
            setting,
        }
    }

    /// Notes one appended record for the trigger's counter.
    pub fn note_append(&mut self)
        ensures
            final(self).records_since_trigger as int == if old(self).records_since_trigger
                == u128::MAX {
                u128::MAX as int
            } else {
                old(self).records_since_trigger as int + 1
            },
            final(self).archives == old(self).archives,
            final(self).state == old(self).state,
            final(self).pending_export == old(self).pending_export,
            final(self).setting == old(self).setting,
            final(self).supported_blocks == old(self).supported_blocks,
    {
        if self.records_since_trigger < u128::MAX {
            self.records_since_trigger = self.records_since_trigger + 1;
        }
    }

    /// Fires the trigger: moves to `Archiving` and fixes how many records
    /// the export covers. With nothing to export the trigger stays idle.
    pub fn start_archiving(&mut self, live_len: usize) -> (count: usize)
        requires
            old(self).should_trigger(live_len as int),
        ensures
            count as int == old(self).export_count(live_len as int),
            count <= live_len,
            final(self).records_since_trigger == 0,
            final(self).pending_export == count as u128,
            if count > 0 {
                final(self).state is Archiving
            } else {
                final(self).state is Idle
            },
            final(self).archives == old(self).archives,
            final(self).setting == old(self).setting,
            final(self).supported_blocks == old(self).supported_blocks,
    {
        let settle = self.setting.settle_to_records;
        let excess: u128 = if live_len as u128 > settle {
            live_len as u128 - settle
        } else {
            0
        };
        let count_u128: u128 = if excess > self.setting.max_records_to_archive {
            self.setting.max_records_to_archive
        } else {
            excess
        };
        let count: usize = count_u128 as usize;
        self.records_since_trigger = 0;
        self.pending_export = count_u128;
        if count > 0 {
            self.state = ArchiveState::Archiving;
        } else {
            self.state = ArchiveState::Idle;
        }
        count
    }

    /// Records a successful export: the archive now owns the range, and the
    /// trigger moves on to settling (trimming the live log).
    pub fn record_export(&mut self, canister_id: Vec<u8>, start: u128, length: u128)
        requires
            old(self).state is Archiving,
        ensures
            final(self).state is Settling,
            final(self).archives@.len() == old(self).archives@.len() + 1,
            final(self).archives@.last().canister_id@ == canister_id@,
            final(self).archives@.last().range.start == start,
            final(self).archives@.last().range.length == length,
            forall|i: int|
                0 <= i < old(self).archives@.len() ==> final(self).archives@[i] == old(
                    self,
                ).archives@[i],
            final(self).pending_export == old(self).pending_export,
            final(self).records_since_trigger == old(self).records_since_trigger,
            final(self).setting == old(self).setting,
            final(self).supported_blocks == old(self).supported_blocks,
    {
        self.archives.push(
            ArchiveEntry { canister_id, range: TransactionRange { start, length } },
        );
        self.state = ArchiveState::Settling;
    }

    /// Finishes settling: the exported prefix left live storage and the
    /// trigger is idle again.
    pub fn settle_done(&mut self)
        requires
            old(self).state is Settling,
        ensures
            final(self).state is Idle,
            final(self).pending_export == 0,
            final(self).archives == old(self).archives,
            final(self).records_since_trigger == old(self).records_since_trigger,
            final(self).setting == old(self).setting,
            final(self).supported_blocks == old(self).supported_blocks,
    {
        self.state = ArchiveState::Idle;
        self.pending_export = 0;
    }
}

impl Default for ArchiveLedgerInfo {
    /// The trigger state a ledger starts with when no archive configuration
    /// is given: default settings and, unlike an explicitly configured
    /// archive, no supported-block list yet.
    fn default() -> (r: Self)
        ensures
            r.archives@.len() == 0,
            r.supported_blocks@.len() == 0,
            r.state is Idle,
            r.records_since_trigger == 0,
            r.pending_export == 0,
            r.setting.archive_controllers is None,
            r.setting.archive_cycles == 2_000_000_000_000u128,
            r.setting.archive_index_type is Stable,
            r.setting.max_active_records == 2000u128,
            r.setting.max_archive_pages == 62500u128,
            r.setting.max_records_in_archive_instance == 10_000_000u128,
            r.setting.max_records_to_archive == 10_000u128,
            r.setting.settle_to_records == 1000u128,
    {
        ArchiveLedgerInfo {
            archives: Vec::new(),
            supported_blocks: Vec::new(),
            state: ArchiveState::Idle,
            records_since_trigger: 0,
            pending_export: 0,
            setting: ArchiveSetting::default(),
        }
    }
}

/// The block types this ledger records, named for their standards.
pub fn supported_block_types() -> (r: Vec<BlockType>)
    ensures
        r@.len() == 9,
        r@[0].block_type@ == "7mint"@,
        r@[1].block_type@ == "7burn"@,
        r@[2].block_type@ == "7xfer"@,
        r@[3].block_type@ == "7update"@,
        r@[4].block_type@ == "37appr"@,
        r@[5].block_type@ == "37appr_coll"@,
        r@[6].block_type@ == "37revoke"@,
        r@[7].block_type@ == "37revoke_coll"@,
        r@[8].block_type@ == "37xfer"@,
        forall|k: int|
            0 <= k < 4 ==> (#[trigger] r@[k]).url@
                == "https://github.com/dfinity/ICRC/blob/main/ICRCs/ICRC-7/ICRC-7.md"@,
        forall|k: int|
            4 <= k < 9 ==> (#[trigger] r@[k]).url@
                == "https://github.com/dfinity/ICRC/blob/main/ICRCs/ICRC-37/ICRC-37.md"@,
{
    let icrc7_url = "https://github.com/dfinity/ICRC/blob/main/ICRCs/ICRC-7/ICRC-7.md";
    let icrc37_url = "https://github.com/dfinity/ICRC/blob/main/ICRCs/ICRC-37/ICRC-37.md";
    let mut r: Vec<BlockType> = Vec::new();
    r.push(BlockType { block_type: "7mint".to_owned(), url: icrc7_url.to_owned() });
    r.push(BlockType { block_type: "7burn".to_owned(), url: icrc7_url.to_owned() });
    r.push(BlockType { block_type: "7xfer".to_owned(), url: icrc7_url.to_owned() });
    r.push(BlockType { block_type: "7update".to_owned(), url: icrc7_url.to_owned() });
    r.push(BlockType { block_type: "37appr".to_owned(), url: icrc37_url.to_owned() });
    r.push(BlockType { block_type: "37appr_coll".to_owned(), url: icrc37_url.to_owned() });
    r.push(BlockType { block_type: "37revoke".to_owned(), url: icrc37_url.to_owned() });
    r.push(BlockType { block_type: "37revoke_coll".to_owned(), url: icrc37_url.to_owned() });
    r.push(BlockType { block_type: "37xfer".to_owned(), url: icrc37_url.to_owned() });
    r
}

} // verus!
