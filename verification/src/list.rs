use vstd::prelude::*;

use crate::error::ListError;
use crate::layout::{
    header_is_zero, item_at, lemma_below_capacity_fits, lemma_slot_in_bounds, list_capacity,
    list_fits, store_item, HEADER_LEN,
};

verus! {

/// Opaque identifier of an externally owned byte buffer, in the shape of
/// a 32-byte account address. The list never looks inside it; it only
/// records which buffer holds the records and, during a migration, which
/// buffer will hold them next.
#[derive(Clone, Copy, Debug, PartialEq, Eq)]
pub struct Handle {
    pub bytes: [u8; 32],
}

/// The migration guard: either the list is stable, or its contents are
/// being relocated to the buffer named by `target`, with `copied_count`
/// records transferred so far by the external driver.
#[derive(Clone, Copy, Debug, PartialEq, Eq)]
pub enum MigrationState {
    Stable,
    Migrating { target: Handle, copied_count: u32 },
}

/// Metadata of a list of fixed-size records stored in an externally
/// owned byte buffer. The buffer itself is passed to every operation;
/// only the record count, the record size and the migration guard are
/// kept here.
#[derive(Clone, Copy, Debug)]
pub struct List {
    /// Identifier of the buffer currently holding the records.
    pub account: Handle,
    /// Fixed encoded byte length of every record; never changes after
    /// the list is created.
    pub item_size: u32,
    /// Logical number of live records.
    pub count: u32,
    /// Two-phase guard for relocating the records to another buffer.
    pub migration: MigrationState,
}

impl List {
    /// Well-formedness of the metadata: records are at least one byte
    /// wide, and a migration never claims to have copied more records
    /// than exist.
    pub open spec fn wf(self) -> bool {
        &&& self.item_size >= 1
        &&& match self.migration {
            MigrationState::Stable => true,
            MigrationState::Migrating { copied_count, .. } => copied_count <= self.count,
        }
    }

    /// Whether the list is in the Migrating state.
    pub open spec fn is_migrating(self) -> bool {
        !(self.migration is Stable)
    }

    /// Creates the metadata for a fresh list over `data` and stamps the
    /// discriminator into the buffer's header. The buffer must hold at
    /// least the 8-byte header and its header bytes must still be all
    /// zero; the record region is left untouched. On failure neither
    /// the buffer nor anything else is changed.
    pub fn new(
        discriminator: &[u8; 8],
        item_size: u32,
        account: Handle,
        data: &mut Vec<u8>,
    ) -> (r: Result<List, ListError>)
        requires
            item_size >= 1,
        ensures
            final(data)@.len() == old(data)@.len(),
            match r {
                Ok(l) => {
                    &&& old(data)@.len() >= HEADER_LEN
                    &&& header_is_zero(old(data)@)
                    &&& final(data)@ == discriminator@ + old(data)@.skip(HEADER_LEN as int)
                    &&& l == (List {
                        account,
                        item_size,
                        count: 0,
                        migration: MigrationState::Stable,
                    })
                },
                Err(ListError::SizeError) => {
                    &&& old(data)@.len() < HEADER_LEN
                    &&& final(data)@ == old(data)@
                },
                Err(ListError::StateError) => {
                    &&& old(data)@.len() >= HEADER_LEN
                    &&& !header_is_zero(old(data)@)
                    &&& final(data)@ == old(data)@
                },
                Err(_) => false,
            },
    {
        let result = List { account, item_size, count: 0, migration: MigrationState::Stable };
        result.init_account(discriminator, data)?;
        Ok(result)
    }

    /// Stamps `discriminator` into the first 8 bytes of a buffer whose
    /// header is still all zero. Fails with `SizeError` on a buffer too
    /// small for the header and with `StateError` on one already
    /// initialized, leaving the buffer untouched either way.
    fn init_account(&self, discriminator: &[u8; 8], data: &mut Vec<u8>) -> (r: Result<
        (),
        ListError,
    >)
        requires
            self.count == 0,
        ensures
            final(data)@.len() == old(data)@.len(),
            match r {
                Ok(()) => {
                    &&& old(data)@.len() >= HEADER_LEN
                    &&& header_is_zero(old(data)@)
                    &&& final(data)@ == discriminator@ + old(data)@.skip(HEADER_LEN as int)
                },
                Err(ListError::SizeError) => {
                    &&& old(data)@.len() < HEADER_LEN
                    &&& final(data)@ == old(data)@
                },
                Err(ListError::StateError) => {
                    &&& old(data)@.len() >= HEADER_LEN
                    &&& !header_is_zero(old(data)@)
                    &&& final(data)@ == old(data)@
                },
                Err(_) => false,
            },
    {
        if data.len() < 8 {
            return Err(ListError::SizeError);
        }
        let mut j: usize = 0;
        while j < 8
            invariant
                j <= 8,
                data@ == old(data)@,
                old(data)@.len() >= 8,
                forall|k: int| 0 <= k < j ==> old(data)@[k] == 0,
            decreases 8 - j,
        {
            if data[j] != 0 {
                return Err(ListError::StateError);
            }
            j += 1;
        }
        let mut j: usize = 0;
        while j < 8
            invariant
                j <= 8,
                data@.len() == old(data)@.len(),
                old(data)@.len() >= 8,
                forall|k: int| 0 <= k < j ==> data@[k] == discriminator@[k],
                forall|k: int| j <= k < old(data)@.len() ==> data@[k] == old(data)@[k],
            decreases 8 - j,
        {
            data.set(j, discriminator[j]);
            j += 1;
        }
        proof {
            assert(data@ =~= discriminator@ + old(data)@.skip(HEADER_LEN as int));
        }
        Ok(())
    }

    /// Fixed encoded byte length of every record.
    pub fn item_size(&self) -> (r: u32)
        ensures
            r == self.item_size,
    {
        self.item_size
    }

    /// Logical number of live records.
    pub fn len(&self) -> (r: u32)
        ensures
            r == self.count,
    {
        self.count
    }

    /// Whether the list holds no records.
    pub fn is_empty(&self) -> (r: bool)
        ensures
            r == (self.count == 0),
    {
        self.count == 0
    }

    /// Whether a migration to another buffer is in progress. While it
    /// is, `set`, `push` and `remove` are rejected; `get` still works.
    pub fn is_changing_account(&self) -> (r: bool)
        ensures
            r == self.is_migrating(),
    {
        match self.migration {
            MigrationState::Stable => false,
            MigrationState::Migrating { .. } => true,
        }
    }

    /// Reads the `item_size` bytes of the record at `index`. Fails with
    /// `BoundsError` at or past the logical length `count`. A pure read:
    /// it is permitted even while a migration is in progress.
    pub fn get(&self, data: &Vec<u8>, index: u32) -> (r: Result<Vec<u8>, ListError>)
        requires
            self.wf(),
            list_fits(self.item_size as nat, self.count as nat, data@.len()),
        ensures
            match r {
                Ok(item) => {
                    &&& index < self.count
                    &&& item@ == item_at(data@, self.item_size as nat, index as nat)
                    &&& item@.len() == self.item_size
                },
                Err(ListError::BoundsError) => index >= self.count,
                Err(_) => false,
            },
    {
        if index >= self.count {
            return Err(ListError::BoundsError);
        }
        proof {
            lemma_slot_in_bounds(
                self.item_size as nat,
                self.count as nat,
                index as nat,
                data@.len(),
            );
        }
        let buffer_len = data.len();
        let isz = self.item_size as usize;
        let start = 8 + (index as usize) * isz;
        let mut out: Vec<u8> = Vec::new();
        let mut j: usize = 0;
        while j < isz
            invariant
                j <= isz,
                isz == self.item_size,
                start == 8 + (index as int) * (self.item_size as int),
                buffer_len == data@.len(),
                start + isz <= buffer_len,
                out@.len() == j,
                forall|k: int| 0 <= k < j ==> out@[k] == data@[start + k],
            decreases isz - j,
        {
            out.push(data[start + j]);
            j += 1;
        }
        proof {
            assert(out@ =~= item_at(data@, self.item_size as nat, index as nat));
        }
        Ok(out)
    }

    /// Overwrites the record slot at `index` in place with `item`, whose
    /// encoded length must equal the list's fixed item size. Fails with
    /// `MigrationLockError` while a migration is in progress and with
    /// `BoundsError` at or past `count`; on failure the buffer is left
    /// untouched.
    pub fn set(&self, data: &mut Vec<u8>, index: u32, item: &[u8]) -> (r: Result<(), ListError>)
        requires
            self.wf(),
            list_fits(self.item_size as nat, self.count as nat, old(data)@.len()),
            item@.len() == self.item_size,
        ensures
            final(data)@.len() == old(data)@.len(),
            match r {
                Ok(()) => {
                    &&& !self.is_migrating()
                    &&& index < self.count
                    &&& final(data)@ == store_item(
                        old(data)@,
                        self.item_size as nat,
                        index as nat,
                        item@,
                    )
                },
                Err(ListError::MigrationLockError) => {
                    &&& self.is_migrating()
                    &&& final(data)@ == old(data)@
                },
                Err(ListError::BoundsError) => {
                    &&& !self.is_migrating()
                    &&& index >= self.count
                    &&& final(data)@ == old(data)@
                },
                Err(_) => false,
            },
    {
        if self.is_changing_account() {
            return Err(ListError::MigrationLockError);
        }
        if index >= self.count {
            return Err(ListError::BoundsError);
        }
        proof {
            lemma_slot_in_bounds(
                self.item_size as nat,
                self.count as nat,
                index as nat,
                data@.len(),
            );
        }
        let buffer_len = data.len();
        let isz = self.item_size as usize;
        let start = 8 + (index as usize) * isz;
        let mut j: usize = 0;
        while j < isz
            invariant
                j <= isz,
                isz == self.item_size,
                item@.len() == isz,
                start == 8 + (index as int) * (self.item_size as int),
                buffer_len == data@.len(),
                start + isz <= buffer_len,
                data@.len() == old(data)@.len(),
                forall|k: int|
                    0 <= k < data@.len() && !(start <= k < start + j) ==> data@[k] == old(
                        data,
                    )@[k],
                forall|k: int| 0 <= k < j ==> data@[start + k] == item@[k],
            decreases isz - j,
        {
            data.set(start + j, item[j]);
            j += 1;
        }
        proof {
            assert(data@ =~= store_item(old(data)@, self.item_size as nat, index as nat, item@));
        }
        Ok(())
    }

    /// Appends `item`, whose encoded length must equal the list's fixed
    /// item size, at the end of the record region and increments `count`
    /// by exactly one. Fails with `MigrationLockError` while a migration
    /// is in progress, with `SizeError` or `CalculationFailure` when the
    /// current buffer length defeats the capacity arithmetic, and with
    /// `CapacityError` when the buffer is full; on failure neither the
    /// metadata nor the buffer changes. Bytes beyond the new logical
    /// length are left untouched.
    pub fn push(&mut self, data: &mut Vec<u8>, item: &[u8]) -> (r: Result<(), ListError>)
        requires
            old(self).wf(),
            item@.len() == old(self).item_size,
        ensures
            final(self).wf(),
            final(self).account == old(self).account,
            final(self).item_size == old(self).item_size,
            final(self).migration == old(self).migration,
            final(data)@.len() == old(data)@.len(),
            match r {
                Ok(()) => {
                    &&& !old(self).is_migrating()
                    &&& old(data)@.len() >= HEADER_LEN
                    &&& old(data)@.len() - HEADER_LEN <= u32::MAX
                    &&& (old(self).count as nat) < list_capacity(
                        old(self).item_size as nat,
                        old(data)@.len(),
                    )
                    &&& final(self).count == old(self).count + 1
                    &&& final(data)@ == store_item(
                        old(data)@,
                        old(self).item_size as nat,
                        old(self).count as nat,
                        item@,
                    )
                },
                Err(ListError::MigrationLockError) => {
                    &&& old(self).is_migrating()
                    &&& *final(self) == *old(self)
                    &&& final(data)@ == old(data)@
                },
                Err(ListError::SizeError) => {
                    &&& !old(self).is_migrating()
                    &&& old(data)@.len() < HEADER_LEN
                    &&& *final(self) == *old(self)
                    &&& final(data)@ == old(data)@
                },
                Err(ListError::CalculationFailure) => {
                    &&& !old(self).is_migrating()
                    &&& old(data)@.len() >= HEADER_LEN
                    &&& old(data)@.len() - HEADER_LEN > u32::MAX
                    &&& *final(self) == *old(self)
                    &&& final(data)@ == old(data)@
                },
                Err(ListError::CapacityError) => {
                    &&& !old(self).is_migrating()
                    &&& old(data)@.len() >= HEADER_LEN
                    &&& old(data)@.len() - HEADER_LEN <= u32::MAX
                    &&& (old(self).count as nat) >= list_capacity(
                        old(self).item_size as nat,
                        old(data)@.len(),
                    )
                    &&& *final(self) == *old(self)
                    &&& final(data)@ == old(data)@
                },
                Err(_) => false,
            },
    {
        if self.is_changing_account() {
            return Err(ListError::MigrationLockError);
        }
        let buffer_len = data.len();
        let capacity = match self.capacity(buffer_len) {
            Ok(c) => c,
            Err(e) => {
                return Err(e);
            },
        };
        if self.count >= capacity {
            return Err(ListError::CapacityError);
        }
        proof {
            lemma_below_capacity_fits(
                self.item_size as nat,
                self.count as nat,
                old(data)@.len(),
            );
            lemma_slot_in_bounds(
                self.item_size as nat,
                (self.count + 1) as nat,
                self.count as nat,
                old(data)@.len(),
            );
        }
        let isz = self.item_size as usize;
        let start = 8 + (self.count as usize) * isz;
        let mut j: usize = 0;
        while j < isz
            invariant
                j <= isz,
                isz == self.item_size,
                self == old(self),
                item@.len() == isz,
                start == 8 + (self.count as int) * (self.item_size as int),
                buffer_len == data@.len(),
                start + isz <= buffer_len,
                data@.len() == old(data)@.len(),
                forall|k: int|
                    0 <= k < data@.len() && !(start <= k < start + j) ==> data@[k] == old(
                        data,
                    )@[k],
                forall|k: int| 0 <= k < j ==> data@[start + k] == item@[k],
            decreases isz - j,
        {
            data.set(start + j, item[j]);
            j += 1;
        }
        proof {
            assert(data@ =~= store_item(
                old(data)@,
                self.item_size as nat,
                self.count as nat,
                item@,
            ));
        }
        self.count = self.count + 1;
        Ok(())
    }

    /// Removes the record at `index` by swap-remove: `count` drops by
    /// one, and unless the removed record was the logical last one, the
    /// former last record's bytes are copied into the hole. The old last
    /// slot keeps its now stale bytes; removing the last record touches
    /// no byte at all. Order is not preserved. Fails with
    /// `MigrationLockError` while a migration is in progress and with
    /// `BoundsError` at or past `count`; on failure nothing changes.
    pub fn remove(&mut self, data: &mut Vec<u8>, index: u32) -> (r: Result<(), ListError>)
        requires
            old(self).wf(),
            list_fits(old(self).item_size as nat, old(self).count as nat, old(data)@.len()),
        ensures
            final(self).wf(),
            final(self).account == old(self).account,
            final(self).item_size == old(self).item_size,
            final(self).migration == old(self).migration,
            final(data)@.len() == old(data)@.len(),
            match r {
                Ok(()) => {
                    &&& !old(self).is_migrating()
                    &&& index < old(self).count
                    &&& final(self).count == old(self).count - 1
                    &&& (if index + 1 == old(self).count {
                        final(data)@ == old(data)@
                    } else {
                        final(data)@ == store_item(
                            old(data)@,
                            old(self).item_size as nat,
                            index as nat,
                            item_at(
                                old(data)@,
                                old(self).item_size as nat,
                                (old(self).count - 1) as nat,
                            ),
                        )
                    })
                },
                Err(ListError::MigrationLockError) => {
                    &&& old(self).is_migrating()
                    &&& *final(self) == *old(self)
                    &&& final(data)@ == old(data)@
                },
                Err(ListError::BoundsError) => {
                    &&& !old(self).is_migrating()
                    &&& index >= old(self).count
                    &&& *final(self) == *old(self)
                    &&& final(data)@ == old(data)@
                },
                Err(_) => false,
            },
    {
        if self.is_changing_account() {
            return Err(ListError::MigrationLockError);
        }
        if index >= self.count {
            return Err(ListError::BoundsError);
        }
        self.count = self.count - 1;
        if index == self.count {
            return Ok(());
        }
        proof {
            let isz = self.item_size as nat;
            let last = (old(self).count - 1) as nat;
            lemma_slot_in_bounds(isz, old(self).count as nat, last, old(data)@.len());
            lemma_slot_in_bounds(isz, old(self).count as nat, index as nat, old(data)@.len());
            assert((index + 1) * isz <= last * isz) by (nonlinear_arith)
                requires
                    index + 1 <= last,
            ;
        }
        let buffer_len = data.len();
        let isz = self.item_size as usize;
        let start = 8 + (index as usize) * isz;
        let last_start = 8 + (self.count as usize) * isz;
        let mut j: usize = 0;
        while j < isz
            invariant
                j <= isz,
                isz == self.item_size,
                self.item_size == old(self).item_size,
                self.count == old(self).count - 1,
                start == 8 + (index as int) * (self.item_size as int),
                last_start == 8 + (self.count as int) * (self.item_size as int),
                start + isz <= last_start,
                last_start + isz <= buffer_len,
                buffer_len == data@.len(),
                data@.len() == old(data)@.len(),
                forall|k: int|
                    0 <= k < data@.len() && !(start <= k < start + j) ==> data@[k] == old(
                        data,
                    )@[k],
                forall|k: int| 0 <= k < j ==> #[trigger] data@[start + k] == old(data)@[last_start
                    + k],
            decreases isz - j,
        {
            let b = data[last_start + j];
            data.set(start + j, b);
            j += 1;
        }
        proof {
            let stored = store_item(
                old(data)@,
                self.item_size as nat,
                index as nat,
                item_at(old(data)@, self.item_size as nat, (old(self).count - 1) as nat),
            );
            assert forall|k: int| 0 <= k < data@.len() implies data@[k] == stored[k] by {
                if start <= k < start + isz {
                    assert(data@[start as int + (k - start as int)] == old(data)@[last_start as int
                        + (k - start as int)]);
                }
            }
            assert(data@ =~= stored);
        }
        Ok(())
    }

    /// Enters the Migrating state: records the buffer that will receive
    /// the records and starts the transfer tally at zero. Only a stable
    /// list may enter a migration. From here on `set`, `push` and
    /// `remove` are rejected until the migration is finalized.
    pub fn start_migration(&mut self, target: Handle)
        requires
            old(self).wf(),
            !old(self).is_migrating(),
        ensures
            final(self).wf(),
            *final(self) == (List {
                migration: MigrationState::Migrating { target, copied_count: 0 },
                ..*old(self)
            }),
    {
        self.migration = MigrationState::Migrating { target, copied_count: 0 };
    }

    /// Advances the tally of records already transferred to the target
    /// buffer by `newly_copied`. The external driver calls this once per
    /// bounded copy step; the tally never passes the record count.
    pub fn advance_migration(&mut self, newly_copied: u32)
        requires
            old(self).wf(),
            old(self).is_migrating(),
            old(self).migration matches MigrationState::Migrating { copied_count, .. }
                ==> copied_count + newly_copied <= old(self).count,
        ensures
            final(self).wf(),
            final(self).account == old(self).account,
            final(self).item_size == old(self).item_size,
            final(self).count == old(self).count,
            match (old(self).migration, final(self).migration) {
                (
                    MigrationState::Migrating { target: t0, copied_count: c0 },
                    MigrationState::Migrating { target: t1, copied_count: c1 },
                ) => t1 == t0 && c1 == c0 + newly_copied,
                _ => false,
            },
    {
        match self.migration {
            MigrationState::Migrating { target, copied_count } => {
                self.migration = MigrationState::Migrating {
                    target,
                    copied_count: copied_count + newly_copied,
                };
            },
            MigrationState::Stable => {
            },
        }
    }

    /// Finalizes a migration once every record has been transferred:
    /// the target buffer becomes the list's buffer, and the guard
    /// returns to the Stable state with the tally cleared.
    pub fn finalize_migration(&mut self)
        requires
            old(self).wf(),
            old(self).migration matches MigrationState::Migrating { copied_count, .. }
                && copied_count == old(self).count,
        ensures
            final(self).wf(),
            final(self).item_size == old(self).item_size,
            final(self).count == old(self).count,
            final(self).migration == MigrationState::Stable,
            old(self).migration matches MigrationState::Migrating { target, .. }
                ==> final(self).account == target,
    {
        match self.migration {
            MigrationState::Migrating { target, .. } => {
                self.account = target;
                self.migration = MigrationState::Stable;
            },
            MigrationState::Stable => {
            },
        }
    }

    /// Total physical bytes a list of `count` records requires: the
    /// header plus the packed record region.
    pub fn bytes_for(item_size: u32, count: u32) -> (r: u32)
        requires
            HEADER_LEN + count * item_size <= u32::MAX,
        ensures
            r == crate::layout::required_bytes(item_size as nat, count as nat),
    {
        8 + count * item_size
    }

    /// Maximum record count a buffer of `account_len` bytes can hold.
    /// The buffer must at least hold the header, and the record region
    /// must fit the native count width; `capacity` is the checked
    /// variant without these preconditions.
    pub fn capacity_of(item_size: u32, account_len: usize) -> (r: u32)
        requires
            item_size >= 1,
            account_len >= HEADER_LEN,
            account_len - HEADER_LEN <= u32::MAX,
        ensures
            r == list_capacity(item_size as nat, account_len as nat),
    {
        ((account_len - 8) as u32) / item_size
    }

    /// Maximum record count the current buffer can hold, derived fresh
    /// from `account_len` on every call — never cached, because the
    /// host may resize the buffer independently of this metadata.
    pub fn capacity(&self, account_len: usize) -> (r: Result<u32, ListError>)
        ensures
            match r {
                Ok(c) => account_len >= HEADER_LEN && account_len - HEADER_LEN <= u32::MAX && c
                    == list_capacity(self.item_size as nat, account_len as nat),
                Err(ListError::SizeError) => account_len < HEADER_LEN,
                Err(ListError::CalculationFailure) => account_len >= HEADER_LEN && account_len
                    - HEADER_LEN > u32::MAX,
                Err(_) => false,
            },
    {
        if account_len < 8 {
            return Err(ListError::SizeError);
        }
        let available = account_len - 8;
        if available > u32::MAX as usize {
            return Err(ListError::CalculationFailure);
        }
        let available32 = available as u32;
        if self.item_size == 0 {
            Ok(u32::MAX)
        } else {
            Ok(available32 / self.item_size)
        }
    }
}

} // verus!
