//! The nodes of the virtual filesystem and their counts of open
//! descriptors.

use vstd::prelude::*;
use super::attachment::Attachment;
use super::types::FileClientId;

verus! {

/// Node contents: a file object of the kernel, or an attachment point
/// served by a process.
pub enum LeafData<F> {
    FileObject(F),
    Attachment(Attachment),
}

/// A node in the virtual filesystem tree.
/// Somewhat analogous to Unix inode.
pub struct Leaf<F> {
    /// Contents
    pub data: LeafData<F>,
    /// Open file descriptors pointing to this node
    pub fc_refcount: u64,
}

impl<F> Leaf<F> {
    pub fn new(obj: F) -> (r: Self)
        ensures
            r.data == LeafData::<F>::FileObject(obj),
            r.fc_refcount == 0,
    {
        Leaf { data: LeafData::FileObject(obj), fc_refcount: 0 }
    }

    pub fn new_attachment(manager: FileClientId, is_leaf: bool) -> (r: Self)
        ensures
            r.data matches LeafData::Attachment(a) && a.spec_manager() == manager && a.spec_is_leaf() == is_leaf
                && a.spec_clients() == super::attachment::no_clients() && a.spec_queue().len() == 0
                && a.spec_waiting() is None,
            r.fc_refcount == 0,
    {
        Leaf { data: LeafData::Attachment(Attachment::new(manager, is_leaf)), fc_refcount: 0 }
    }

    /// Increases reference count
    pub fn inc_ref(&mut self)
        requires
            old(self).fc_refcount < u64::MAX,
        ensures
            final(self).fc_refcount == old(self).fc_refcount + 1,
            final(self).data == old(self).data,
    {
        self.fc_refcount = self.fc_refcount + 1;
    }

    /// Decreases reference count. If refcount hits zero,
    /// returns `false` to inform the caller that this node
    /// should be deleted
    pub fn dec_ref(&mut self) -> (keep: bool)
        requires
            old(self).fc_refcount > 0,
        ensures
            final(self).fc_refcount == old(self).fc_refcount - 1,
            final(self).data == old(self).data,
            keep == (final(self).fc_refcount > 0),
    {
        self.fc_refcount = self.fc_refcount - 1;
        self.fc_refcount > 0
    }
}

} // verus!
