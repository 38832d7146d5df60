//! Duplicate-mode address-space transfer: after the copy-on-write duplicate
//! exists, each externally backed grant is reopened, mapped again and recorded
//! in the duplicate, and only then is the new context pointed at it.
use vstd::prelude::*;

use crate::error::CloneError;
use crate::grant::{
    external_grants, grant_key, grant_key_of, grants_of, parse_grants, remap_request, remapped,
    remapped_grant, select_external, Grant, MapRequest, MAP_FLAG_BITS,
};

verus! {

/// What the caller performs next.
pub enum TransferAction {
    /// Reopen the region of the source address space named `key` and map it as `request`.
    Remap { key: Vec<u8>, request: MapRequest },
    /// Append `record` to the duplicate's descriptor stream.
    Append { record: Grant },
    /// Write the new context's address-space selector, naming the duplicate.
    InstallSelector,
}

/// Progress of one transfer.
pub struct AddressSpaceTransfer {
    /// The externally backed grants of the source, in stream order.
    pub grants: Vec<Grant>,
    /// Index of the grant being handled.
    pub index: usize,
    /// Where the grant at `index` was mapped, once it has been.
    pub mapped: Option<usize>,
    /// Whether the selector has been written.
    pub installed: bool,
    /// The error that stopped the transfer, if one did.
    pub failure: Option<CloneError>,
}

impl AddressSpaceTransfer {
    pub open spec fn wf(&self) -> bool {
        &&& self.index <= self.grants@.len()
        &&& self.index == self.grants@.len() ==> self.mapped is None
        &&& self.installed ==> self.index == self.grants@.len()
    }

    /// The grant being handled.
    pub open spec fn current_grant(&self) -> Grant {
        self.grants@[self.index as int]
    }

    /// Whether nothing is left to do.
    pub open spec fn finished(&self) -> bool {
        self.failure is Some || self.installed
    }

    /// Starts a transfer from the source's descriptor stream, read as words.
    pub fn new(words: &[usize]) -> (r: AddressSpaceTransfer)
        ensures
            r.wf(),
            r.grants@ == external_grants(grants_of(words@)),
            r.index == 0,
            r.mapped is None,
            !r.installed,
            r.failure is None,
    {
        let all = parse_grants(words);
        let grants = select_external(all.as_slice());
        AddressSpaceTransfer { grants, index: 0, mapped: None, installed: false, failure: None }
    }

    /// The next action: remap each selected grant and append its record, in
    /// order; then write the selector; then nothing.
    pub fn next_action(&self) -> (r: Option<TransferAction>)
        requires
            self.wf(),
        ensures
            self.finished() ==> r is None,
            !self.finished() && self.index < self.grants@.len() && self.mapped is None ==> (
            r matches Some(TransferAction::Remap { key, request }) && key@ == grant_key_of(
                self.current_grant().address,
            ) && request == (MapRequest {
                size: self.current_grant().size,
                flags: self.current_grant().flags & MAP_FLAG_BITS,
                offset: self.current_grant().offset,
            })),
            !self.finished() && self.index < self.grants@.len() && self.mapped is Some ==> r
                == Some(
                TransferAction::Append {
                    record: remapped(self.current_grant(), self.mapped->Some_0),
                },
            ),
            !self.finished() && self.index == self.grants@.len() ==> r == Some(
                TransferAction::InstallSelector,
            ),
    {
        if self.failure.is_some() || self.installed {
            return None;
        }
        if self.index == self.grants.len() {
            return Some(TransferAction::InstallSelector);
        }
        let g = self.grants[self.index];
        match self.mapped {
            None => Some(TransferAction::Remap { key: grant_key(g.address), request: remap_request(&g) }),
            Some(m) => Some(TransferAction::Append { record: remapped_grant(&g, m) }),
        }
    }

    /// Records how the last action went; for a remap the success value is the
    /// address the region was mapped at. Any failure stops the transfer.
    pub fn report(&mut self, action_result: Result<usize, CloneError>)
        requires
            old(self).wf(),
            !old(self).finished(),
        ensures
            final(self).wf(),
            final(self).grants@ == old(self).grants@,
            match action_result {
                Err(e) => final(self).failure == Some(e) && final(self).index == old(self).index
                    && !final(self).installed,
                Ok(v) => final(self).failure is None && if old(self).index == old(self).grants@.len() {
                    final(self).installed && final(self).index == old(self).index
                } else if old(self).mapped is None {
                    final(self).mapped == Some(v) && final(self).index == old(self).index
                        && !final(self).installed
                } else {
                    final(self).mapped is None && final(self).index == old(self).index + 1
                        && !final(self).installed
                },
            },
    {
        match action_result {
            Err(e) => {
                self.failure = Some(e);
            },
            Ok(v) => {
                if self.index == self.grants.len() {
                    self.installed = true;
                } else if self.mapped.is_none() {
                    self.mapped = Some(v);
                } else {
                    self.mapped = None;
                    self.index = self.index + 1;
                }
            },
        }
    }

    /// `None` while actions remain; else success or the error that stopped it.
    pub fn result(&self) -> (r: Option<Result<(), CloneError>>)
        ensures
            r == (match self.failure {
                Some(e) => Some(Err(e)),
                None => if self.installed {
                    Some(Ok(()))
                } else {
                    None
                },
            }),
    {
        match self.failure {
            Some(e) => Some(Err(e)),
            None => if self.installed {
                Some(Ok(()))
            } else {
                None
            },
        }
    }
}

/// The selector is written only once every selected grant has been remapped
/// and its record appended: it is the last write of the transfer.
pub proof fn lemma_selector_written_last(t: AddressSpaceTransfer, i: int)
    requires
        t.wf(),
        t.installed,
        0 <= i < t.grants@.len(),
    ensures
        i < t.index,
        t.mapped is None,
{
}

} // verus!
